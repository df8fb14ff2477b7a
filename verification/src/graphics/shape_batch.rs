use vstd::prelude::*;

verus! {

/// What to do with one GPU buffer before drawing.
#[derive(Clone, Copy, PartialEq, Eq, Debug)]
pub enum BufferUpload {
    /// The buffer is up to date.
    Keep,
    /// Write the data into the existing buffer, which is large enough.
    Write,
    /// Create a new buffer holding the data; it becomes the capacity.
    Recreate,
}

/// What `prepare` asks of the GPU side.
#[derive(Clone, Copy, PartialEq, Eq, Debug)]
pub enum Prepare {
    /// Nothing to draw.
    Skip,
    /// Create the vertex, index and camera buffers and the bind group.
    Create,
    /// Update the vertex and index buffers as told, and write the camera.
    Update(BufferUpload, BufferUpload),
}

/// How a buffer of `capacity` items takes `len` items that changed.
pub open spec fn upload_for(len: nat, capacity: nat) -> BufferUpload {
    if len <= capacity {
        BufferUpload::Write
    } else {
        BufferUpload::Recreate
    }
}

/// What a shape batch holds: its vertexes and indexes, whether they changed
/// since the GPU buffers were filled, and those buffers' capacities.
pub ghost struct ShapeBatchModel<V> {
    pub vertexes: Seq<V>,
    pub indexes: Seq<u32>,
    pub needs_sync: bool,
    pub capacities: Option<(nat, nat)>,
}

/// The vertex buffer's capacity (0 when there is none).
pub open spec fn vertex_capacity<V>(m: ShapeBatchModel<V>) -> nat {
    match m.capacities {
        Some((v, i)) => v,
        None => 0,
    }
}

/// The index buffer's capacity (0 when there is none).
pub open spec fn index_capacity<V>(m: ShapeBatchModel<V>) -> nat {
    match m.capacities {
        Some((v, i)) => i,
        None => 0,
    }
}

/// Every index names one of `vertex_count` vertexes.
pub open spec fn indexes_within(indexes: Seq<u32>, vertex_count: nat) -> bool {
    forall|i: int| 0 <= i < indexes.len() ==> #[trigger] indexes[i] < vertex_count
}

/// The indexes of a shape drawn after `base` vertexes: each shifted by
/// `base`.
pub open spec fn shifted(indexes: Seq<u32>, base: int) -> Seq<u32> {
    indexes.map_values(|i: u32| (i + base) as u32)
}

/// Gathers shapes into one vertex list and one index list, drawn with one
/// call. `V` is the vertex type.
pub struct ShapeBatch<V> {
    vertexes: Vec<V>,
    indexes: Vec<u32>,
    needs_sync: bool,
    capacities: Option<(usize, usize)>,
}

impl<V> View for ShapeBatch<V> {
    type V = ShapeBatchModel<V>;

    closed spec fn view(&self) -> ShapeBatchModel<V> {
        ShapeBatchModel {
            vertexes: self.vertexes@,
            indexes: self.indexes@,
            needs_sync: self.needs_sync,
            capacities: match self.capacities {
                Some((v, i)) => Some((v as nat, i as nat)),
                None => None,
            },
        }
    }
}

impl<V: Copy> ShapeBatch<V> {
    /// An empty batch without GPU buffers.
    #[inline]
    pub fn new() -> (batch: Self)
        ensures
            batch@.vertexes == Seq::<V>::empty(),
            batch@.indexes == Seq::<u32>::empty(),
            !batch@.needs_sync,
            batch@.capacities is None,
    {
        ShapeBatch { vertexes: Vec::new(), indexes: Vec::new(), needs_sync: false, capacities: None }
    }

    /// Starts a new frame of drawing: forgets the shapes drawn before.
    pub fn begin(&mut self)
        ensures
            final(self)@ == (ShapeBatchModel {
                vertexes: Seq::<V>::empty(),
                indexes: Seq::<u32>::empty(),
                ..old(self)@
            }),
    {
        self.vertexes.clear();
        self.indexes.clear();
    }

    /// Adds a shape, given its vertexes (already transformed) and its
    /// indexes into them: the indexes are shifted past the vertexes already
    /// in the batch. The vertex count must fit in `u32`, as must every
    /// shifted index.
    pub fn draw(&mut self, vertexes: &[V], indexes: &[u32])
        requires
            old(self)@.vertexes.len() <= u32::MAX,
            forall|i: int| 0 <= i < indexes@.len() ==> old(self)@.vertexes.len() + #[trigger] indexes@[i] <= u32::MAX,
        ensures
            final(self)@ == (ShapeBatchModel {
                vertexes: old(self)@.vertexes + vertexes@,
                indexes: old(self)@.indexes + shifted(indexes@, old(self)@.vertexes.len() as int),
                needs_sync: true,
                ..old(self)@
            }),
            indexes_within(old(self)@.indexes, old(self)@.vertexes.len()) && indexes_within(
                indexes@,
                vertexes@.len(),
            ) ==> indexes_within(final(self)@.indexes, final(self)@.vertexes.len()),
    {
        let base = self.vertexes.len() as u32;
        let ghost old_model = self@;
        let ghost old_indexes = self.indexes@;
        let ghost old_vertexes = self.vertexes@;
        let mut k: usize = 0;
        while k < indexes.len()
            invariant
                k <= indexes@.len(),
                base == old_vertexes.len(),
                forall|i: int| 0 <= i < indexes@.len() ==> base + #[trigger] indexes@[i] <= u32::MAX,
                self.indexes@ == old_indexes + shifted(indexes@.take(k as int), base as int),
                self.vertexes@ == old_vertexes,
                self@.needs_sync == old_model.needs_sync,
                self@.capacities == old_model.capacities,
            decreases indexes@.len() - k,
        {
            self.indexes.push(base + indexes[k]);
            proof {
                assert(shifted(indexes@.take(k + 1), base as int) =~= shifted(indexes@.take(k as int), base as int).push(
                    (base + indexes@[k as int]) as u32,
                ));
            }
            k = k + 1;
        }
        proof {
            assert(indexes@.take(indexes@.len() as int) =~= indexes@);
        }
        let mut j: usize = 0;
        while j < vertexes.len()
            invariant
                j <= vertexes@.len(),
                self.vertexes@ == old_vertexes + vertexes@.take(j as int),
                self.indexes@ == old_indexes + shifted(indexes@, base as int),
                self@.capacities == old_model.capacities,
            decreases vertexes@.len() - j,
        {
            self.vertexes.push(vertexes[j]);
            proof {
                assert(vertexes@.take(j + 1) =~= vertexes@.take(j as int).push(vertexes@[j as int]));
            }
            j = j + 1;
        }
        self.needs_sync = true;
        proof {
            assert(indexes@.take(indexes@.len() as int) =~= indexes@);
            assert(vertexes@.take(vertexes@.len() as int) =~= vertexes@);
            let all = self.indexes@;
            let moved = shifted(indexes@, base as int);
            assert(all == old_indexes + moved);
            assert(moved.len() == indexes@.len());
            if indexes_within(old_indexes, old_vertexes.len()) && indexes_within(indexes@, vertexes@.len()) {
                assert forall|i: int| 0 <= i < all.len() implies #[trigger] all[i] < self.vertexes@.len() by {
                    if i >= old_indexes.len() {
                        let j = i - old_indexes.len();
                        assert(all[i] == moved[j]);
                        assert(indexes@[j] < vertexes@.len());
                        assert(base + indexes@[j] <= u32::MAX);
                    } else {
                        assert(all[i] == old_indexes[i]);
                    }
                }
            }
        }
    }

    /// Decides how the GPU buffers follow the batch before drawing: nothing
    /// when the batch is empty; create everything the first time; else
    /// write or recreate the vertex and index buffers if they changed (a
    /// buffer too small is recreated at the new size).
    pub fn prepare(&mut self) -> (action: Prepare)
        ensures
            action == if old(self)@.vertexes.len() == 0 {
                Prepare::Skip
            } else if old(self)@.capacities is None {
                Prepare::Create
            } else if old(self)@.needs_sync {
                Prepare::Update(
                    upload_for(old(self)@.vertexes.len(), vertex_capacity(old(self)@)),
                    upload_for(old(self)@.indexes.len(), index_capacity(old(self)@)),
                )
            } else {
                Prepare::Update(BufferUpload::Keep, BufferUpload::Keep)
            },
            final(self)@.vertexes == old(self)@.vertexes,
            final(self)@.indexes == old(self)@.indexes,
            final(self)@.capacities == if old(self)@.vertexes.len() == 0 {
                old(self)@.capacities
            } else if old(self)@.capacities is None {
                Some((old(self)@.vertexes.len(), old(self)@.indexes.len()))
            } else if old(self)@.needs_sync {
                Some(
                    (
                        if old(self)@.vertexes.len() <= vertex_capacity(old(self)@) {
                            vertex_capacity(old(self)@)
                        } else {
                            old(self)@.vertexes.len()
                        },
                        if old(self)@.indexes.len() <= index_capacity(old(self)@) {
                            index_capacity(old(self)@)
                        } else {
                            old(self)@.indexes.len()
                        },
                    ),
                )
            } else {
                old(self)@.capacities
            },
            final(self)@.needs_sync == if old(self)@.vertexes.len() == 0 || old(self)@.capacities is None {
                old(self)@.needs_sync
            } else {
                false
            },
    {
        if self.vertexes.len() == 0 {
            return Prepare::Skip;
        }
        match self.capacities {
            None => {
                self.capacities = Some((self.vertexes.len(), self.indexes.len()));
                Prepare::Create
            },
            Some((vertex_capacity, index_capacity)) => {
                if self.needs_sync {
                    let vertex_upload = if self.vertexes.len() <= vertex_capacity {
                        BufferUpload::Write
                    } else {
                        BufferUpload::Recreate
                    };
                    let index_upload = if self.indexes.len() <= index_capacity {
                        BufferUpload::Write
                    } else {
                        BufferUpload::Recreate
                    };
                    let new_vertex_capacity = if self.vertexes.len() <= vertex_capacity {
                        vertex_capacity
                    } else {
                        self.vertexes.len()
                    };
                    let new_index_capacity = if self.indexes.len() <= index_capacity {
                        index_capacity
                    } else {
                        self.indexes.len()
                    };
                    self.capacities = Some((new_vertex_capacity, new_index_capacity));
                    self.needs_sync = false;
                    Prepare::Update(vertex_upload, index_upload)
                } else {
                    Prepare::Update(BufferUpload::Keep, BufferUpload::Keep)
                }
            },
        }
    }

    /// Whether `draw` on the GPU side has anything to draw: the buffers
    /// exist and the batch is not empty.
    pub fn can_draw(&self) -> (drawable: bool)
        ensures
            drawable == (self@.capacities is Some && self@.vertexes.len() > 0),
    {
        self.capacities.is_some() && self.vertexes.len() > 0
    }
}

} // verus!
