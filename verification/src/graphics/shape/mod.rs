//! The shape renderer's bookkeeping: the instances drawn this frame, the
//! size of the GPU buffer that holds them, and the batches the canvas asks
//! for.

use vstd::prelude::*;
use crate::graphics::canvas::{ShapeBatch, ShapeId};

verus! {

/// What happens to the instance buffer at the end of a frame.
#[derive(Clone, Copy, PartialEq, Eq, Debug)]
pub enum InstanceBufferUpload {
    /// No instance was added: the buffer is left alone.
    Skip,
    /// The instances fit: they are written into the existing buffer.
    Write,
    /// There is no buffer, or it is too small: a buffer holding exactly the
    /// instances replaces it.
    Create,
}

/// What a shape renderer holds: the instances added since `begin`, the byte
/// size of its instance buffer if it has one, and the byte size of one
/// instance.
pub ghost struct ShapeRendererModel<I> {
    pub instances: Seq<I>,
    pub buffer_size: Option<nat>,
    pub instance_size: nat,
}

/// The byte size of the instances of `m`.
pub open spec fn instances_size<I>(m: ShapeRendererModel<I>) -> nat {
    m.instances.len() * m.instance_size
}

/// Collects the shape instances of a frame. `I` is the instance data, each
/// `instance_size` bytes long on the GPU.
pub struct ShapeRenderer<I> {
    instances: Vec<I>,
    instance_buffer_size: Option<u64>,
    instance_size: u64,
}

impl<I> View for ShapeRenderer<I> {
    type V = ShapeRendererModel<I>;

    closed spec fn view(&self) -> ShapeRendererModel<I> {
        ShapeRendererModel {
            instances: self.instances@,
            buffer_size: match self.instance_buffer_size {
                Some(s) => Some(s as nat),
                None => None,
            },
            instance_size: self.instance_size as nat,
        }
    }
}

impl<I> ShapeRenderer<I> {
    /// A renderer with no instance and no buffer.
    pub fn new(instance_size: u64) -> (renderer: Self)
        ensures
            renderer@ == (ShapeRendererModel {
                instances: Seq::<I>::empty(),
                buffer_size: None,
                instance_size: instance_size as nat,
            }),
    {
        ShapeRenderer { instances: Vec::new(), instance_buffer_size: None, instance_size }
    }

    /// Starts a frame: forgets the instances of the last one.
    pub fn begin(&mut self)
        ensures
            final(self)@ == (ShapeRendererModel { instances: Seq::<I>::empty(), ..old(self)@ }),
    {
        self.instances.clear();
    }

    /// Adds an instance.
    pub fn add(&mut self, instance: I)
        ensures
            final(self)@ == (ShapeRendererModel {
                instances: old(self)@.instances.push(instance),
                ..old(self)@
            }),
    {
        self.instances.push(instance);
    }

    /// Ends a frame: decides how the instances reach the GPU. With none,
    /// nothing happens; when they fit in the buffer, they are written into
    /// it; else a buffer of exactly their size is created. Their byte size
    /// must fit in `u64`.
    pub fn end(&mut self) -> (upload: InstanceBufferUpload)
        requires
            instances_size(old(self)@) <= u64::MAX,
        ensures
            upload == if old(self)@.instances.len() == 0 {
                InstanceBufferUpload::Skip
            } else {
                match old(self)@.buffer_size {
                    Some(size) => if instances_size(old(self)@) <= size {
                        InstanceBufferUpload::Write
                    } else {
                        InstanceBufferUpload::Create
                    },
                    None => InstanceBufferUpload::Create,
                }
            },
            final(self)@ == if upload == InstanceBufferUpload::Create {
                ShapeRendererModel { buffer_size: Some(instances_size(old(self)@)), ..old(self)@ }
            } else {
                old(self)@
            },
    {
        if self.instances.len() == 0 {
            return InstanceBufferUpload::Skip;
        }
        let count = self.instances.len() as u64;
        assert(count * self.instance_size == instances_size(self@));
        let instances_size = count * self.instance_size;
        match self.instance_buffer_size {
            Some(size) => if instances_size <= size {
                return InstanceBufferUpload::Write;
            },
            None => {},
        }
        self.instance_buffer_size = Some(instances_size);
        InstanceBufferUpload::Create
    }

    /// The batch for one more instance of `shape`: the instance that the
    /// next `add` stores. The instance count must be below `u32::MAX`.
    pub fn next_batch(&self, shape: ShapeId) -> (batch: ShapeBatch)
        requires
            self@.instances.len() < u32::MAX,
        ensures
            batch == (ShapeBatch {
                shape,
                start: self@.instances.len() as u32,
                end: (self@.instances.len() + 1) as u32,
            }),
    {
        let instance_count = self.instances.len() as u32;
        ShapeBatch { shape, start: instance_count, end: instance_count + 1 }
    }

    /// Whether the shape pipeline can be bound for drawing: only once an
    /// instance buffer exists.
    pub fn prepare_pipeline(&self) -> (ready: bool)
        ensures
            ready == self@.buffer_size is Some,
    {
        self.instance_buffer_size.is_some()
    }
}

} // verus!
