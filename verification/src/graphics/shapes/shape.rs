use vstd::prelude::*;

verus! {

/// Whether `indexes` can describe triangles over `vertex_count` vertexes:
/// there are at least 3 vertexes and every index names one of them.
pub open spec fn valid_mesh(vertex_count: nat, indexes: Seq<u16>) -> bool {
    &&& vertex_count >= 3
    &&& forall|i: int| 0 <= i < indexes.len() ==> #[trigger] indexes[i] < vertex_count
}

/// What a shape is: its vertexes and the indexes of its triangles.
pub ghost struct ShapeModel<V> {
    pub vertexes: Seq<V>,
    pub indexes: Seq<u16>,
}

/// The data of a shape, as uploaded to the GPU. `V` is the vertex type.
pub struct Shape<V> {
    vertexes: Vec<V>,
    indexes: Vec<u16>,
}

impl<V> View for Shape<V> {
    type V = ShapeModel<V>;

    closed spec fn view(&self) -> ShapeModel<V> {
        ShapeModel { vertexes: self.vertexes@, indexes: self.indexes@ }
    }
}

impl<V: Copy> Clone for Shape<V> {
    fn clone(&self) -> (copy: Self)
        ensures
            copy@ == self@,
    {
        proof {
            use_type_invariant(self);
        }
        let mut vertexes: Vec<V> = Vec::new();
        let mut i: usize = 0;
        while i < self.vertexes.len()
            invariant
                i <= self.vertexes@.len(),
                vertexes@ == self.vertexes@.take(i as int),
            decreases self.vertexes@.len() - i,
        {
            vertexes.push(self.vertexes[i]);
            i = i + 1;
            assert(vertexes@ =~= self.vertexes@.take(i as int));
        }
        assert(vertexes@ =~= self.vertexes@);
        let indexes = self.indexes.clone();
        assert(indexes@ =~= self.indexes@);
        Shape { vertexes, indexes }
    }
}

impl<V> Shape<V> {
    /// Every shape has at least 3 vertexes, and each index names one.
    #[verifier::type_invariant]
    closed spec fn holds_valid_mesh(self) -> bool {
        valid_mesh(self.vertexes@.len(), self.indexes@)
    }

    /// Creates a shape with the given vertexes and indexes. There must be
    /// at least 3 vertexes, and each index must be less than their count.
    pub fn new_unchecked(vertexes: Vec<V>, indexes: Vec<u16>) -> (shape: Self)
        requires
            valid_mesh(vertexes@.len(), indexes@),
        ensures
            shape@ == (ShapeModel { vertexes: vertexes@, indexes: indexes@ }),
    {
        Shape { vertexes, indexes }
    }

    /// Creates a triangle with the given vertexes.
    pub fn triangle(a: V, b: V, c: V) -> (shape: Self)
        ensures
            shape@ == (ShapeModel { vertexes: seq![a, b, c], indexes: seq![0u16, 1, 2] }),
    {
        let vertexes = vec![a, b, c];
        let indexes: Vec<u16> = vec![0, 1, 2];
        assert(vertexes@ =~= seq![a, b, c]);
        assert(indexes@ =~= seq![0u16, 1, 2]);
        Shape::new_unchecked(vertexes, indexes)
    }

    /// Creates a quadrilateral with the given vertexes, in order around it,
    /// as two triangles.
    pub fn quadrilateral(a: V, b: V, c: V, d: V) -> (shape: Self)
        ensures
            shape@ == (ShapeModel {
                vertexes: seq![a, b, c, d],
                indexes: seq![0u16, 1, 3, 3, 1, 2],
            }),
    {
        let vertexes = vec![a, b, c, d];
        let indexes: Vec<u16> = vec![0, 1, 3, 3, 1, 2];
        assert(vertexes@ =~= seq![a, b, c, d]);
        assert(indexes@ =~= seq![0u16, 1, 3, 3, 1, 2]);
        Shape::new_unchecked(vertexes, indexes)
    }

    /// The shape's vertexes.
    #[inline]
    pub fn vertexes(&self) -> (vertexes: &[V])
        ensures
            vertexes@ == self@.vertexes,
            valid_mesh(vertexes@.len(), self@.indexes),
    {
        proof {
            use_type_invariant(self);
        }
        self.vertexes.as_slice()
    }

    /// Returns the number of vertexes that make up the shape.
    #[inline]
    pub fn vertex_count(&self) -> (count: usize)
        ensures
            count == self@.vertexes.len(),
            count >= 3,
    {
        proof {
            use_type_invariant(self);
        }
        self.vertexes.len()
    }

    /// The shape's indexes, three per triangle.
    #[inline]
    pub fn indexes(&self) -> (indexes: &[u16])
        ensures
            indexes@ == self@.indexes,
            valid_mesh(self@.vertexes.len(), indexes@),
    {
        proof {
            use_type_invariant(self);
        }
        self.indexes.as_slice()
    }

    /// Returns the number of indexes that make up the shape.
    #[inline]
    pub fn index_count(&self) -> (count: usize)
        ensures
            count == self@.indexes.len(),
    {
        self.indexes.len()
    }
}

} // verus!
