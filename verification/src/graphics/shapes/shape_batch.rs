use vstd::prelude::*;
use crate::graphics::batch_status::BatchStatus;

verus! {

/// What the GPU side does before drawing a batch of instances.
#[derive(Clone, Copy, PartialEq, Eq, Debug)]
pub enum InstanceUpload {
    /// Nothing new to upload.
    Skip,
    /// Create the instance and projection buffers and the bind group.
    Create,
    /// Write the instances into the existing buffer, which is large enough,
    /// and write the projection.
    Write,
    /// Replace the instance buffer by one holding the instances, and write
    /// the projection.
    Recreate,
}

/// What an instance batch holds: its shape, its instances, the capacity of
/// its instance buffer if it has one, and its status.
pub ghost struct InstanceBatchModel<S, I> {
    pub shape: S,
    pub instances: Seq<I>,
    pub capacity: Option<nat>,
    pub status: BatchStatus,
}

/// Draws instances of a shape. `S` is the shape handle, `I` the instance
/// data.
pub struct ShapeBatch<S, I> {
    shape: S,
    instances: Vec<I>,
    capacity: Option<usize>,
    status: BatchStatus,
}

impl<S, I> View for ShapeBatch<S, I> {
    type V = InstanceBatchModel<S, I>;

    closed spec fn view(&self) -> InstanceBatchModel<S, I> {
        InstanceBatchModel {
            shape: self.shape,
            instances: self.instances@,
            capacity: match self.capacity {
                Some(c) => Some(c as nat),
                None => None,
            },
            status: self.status,
        }
    }
}

impl<S, I> ShapeBatch<S, I> {
    /// A batch of `shape` with no instance and no buffer.
    pub fn new(shape: S) -> (batch: Self)
        ensures
            batch@ == (InstanceBatchModel {
                shape,
                instances: Seq::<I>::empty(),
                capacity: None,
                status: BatchStatus::Empty,
            }),
    {
        ShapeBatch { shape, instances: Vec::new(), capacity: None, status: BatchStatus::Empty }
    }

    /// Removes every instance.
    pub fn clear(&mut self)
        ensures
            final(self)@ == (InstanceBatchModel {
                instances: Seq::<I>::empty(),
                status: BatchStatus::Empty,
                ..old(self)@
            }),
    {
        self.instances.clear();
        self.status = BatchStatus::Empty;
    }

    /// Adds an instance.
    pub fn add(&mut self, instance: I)
        ensures
            final(self)@ == (InstanceBatchModel {
                instances: old(self)@.instances.push(instance),
                status: BatchStatus::NonEmpty,
                ..old(self)@
            }),
    {
        self.instances.push(instance);
        self.status = BatchStatus::NonEmpty;
    }

    /// Sets the shape to use when drawing.
    #[inline]
    pub fn set_shape(&mut self, shape: S)
        ensures
            final(self)@ == (InstanceBatchModel { shape, ..old(self)@ }),
    {
        self.shape = shape;
    }

    /// Returns the shape drawn by the batch.
    #[inline]
    pub fn shape(&self) -> (shape: &S)
        ensures
            *shape == self@.shape,
    {
        &self.shape
    }

    /// Decides the upload before drawing: only a batch with new instances
    /// uploads; the first time it creates its buffers; later it writes into
    /// its buffer when the instances fit, else replaces it. The batch is
    /// then ready to draw.
    pub fn prepare(&mut self) -> (upload: InstanceUpload)
        ensures
            upload == if old(self)@.status != BatchStatus::NonEmpty {
                InstanceUpload::Skip
            } else {
                match old(self)@.capacity {
                    None => InstanceUpload::Create,
                    Some(c) => if old(self)@.instances.len() <= c {
                        InstanceUpload::Write
                    } else {
                        InstanceUpload::Recreate
                    },
                }
            },
            final(self)@ == if old(self)@.status != BatchStatus::NonEmpty {
                old(self)@
            } else {
                InstanceBatchModel {
                    capacity: match old(self)@.capacity {
                        Some(c) => if old(self)@.instances.len() <= c {
                            Some(c)
                        } else {
                            Some(old(self)@.instances.len())
                        },
                        None => Some(old(self)@.instances.len()),
                    },
                    status: BatchStatus::Ready,
                    ..old(self)@
                }
            },
    {
        match self.status {
            BatchStatus::NonEmpty => {},
            _ => return InstanceUpload::Skip,
        }
        let count = self.instances.len();
        let upload = match self.capacity {
            None => {
                self.capacity = Some(count);
                InstanceUpload::Create
            },
            Some(c) => if count <= c {
                InstanceUpload::Write
            } else {
                self.capacity = Some(count);
                InstanceUpload::Recreate
            },
        };
        self.status = BatchStatus::Ready;
        upload
    }

    /// Whether the batch has anything to draw: its buffers exist and it is
    /// ready.
    pub fn can_draw(&self) -> (drawable: bool)
        ensures
            drawable == (self@.capacity is Some && self@.status == BatchStatus::Ready),
    {
        match self.status {
            BatchStatus::Ready => self.capacity.is_some(),
            _ => false,
        }
    }
}

} // verus!
