//! Instance buffers of the batchers: a CPU-side list of instances filled each
//! frame beside the GPU buffer it is uploaded to, and the pair of buffers that
//! devices with small vertex attributes use for one instance split in two.

use vstd::prelude::*;

verus! {

/// The instances of one batch: `cpu_buffer` is refilled every frame and
/// uploaded into `gpu_buffer`, which is made on the first upload.
pub struct BatchBuffer<T, G = ()> {
    pub cpu_buffer: Vec<T>,
    pub gpu_buffer: Option<G>,
}

/// The room a new batch reserves for instances.
pub const BATCH_INITIAL_CAPACITY: usize = 1024;

impl<T, G> BatchBuffer<T, G> {
    /// An empty batch with room for `BATCH_INITIAL_CAPACITY` instances and
    /// no GPU buffer yet.
    pub fn new() -> (r: Self)
        ensures
            r.cpu_buffer@ == Seq::<T>::empty(),
            r.gpu_buffer is None,
    {
        BatchBuffer { cpu_buffer: Vec::with_capacity(BATCH_INITIAL_CAPACITY), gpu_buffer: None }
    }

    /// Empties the CPU list before a new frame; the GPU buffer is kept.
    pub fn clear(&mut self)
        ensures
            final(self).cpu_buffer@ == Seq::<T>::empty(),
            final(self).gpu_buffer == old(self).gpu_buffer,
    {
        self.cpu_buffer.clear();
    }

    /// Appends an instance to the CPU list.
    pub fn push(&mut self, instance: T)
        ensures
            final(self).cpu_buffer@ == old(self).cpu_buffer@.push(instance),
            final(self).gpu_buffer == old(self).gpu_buffer,
    {
        self.cpu_buffer.push(instance);
    }
}

/// The two buffers holding the halves of every instance, on devices whose
/// instances do not fit one vertex buffer.
pub struct SplitStorage<A, B> {
    buf_a: Option<A>,
    buf_b: Option<B>,
}

impl<A, B> SplitStorage<A, B> {
    /// The buffer of the first halves, once made.
    pub closed spec fn part_a(&self) -> Option<A> {
        self.buf_a
    }

    /// The buffer of the second halves, once made.
    pub closed spec fn part_b(&self) -> Option<B> {
        self.buf_b
    }

    /// Both buffers exist.
    pub open spec fn ready(&self) -> bool {
        self.part_a() is Some && self.part_b() is Some
    }

    /// Storage with neither buffer made yet.
    pub fn new() -> (r: Self)
        ensures
            r.part_a() is None,
            r.part_b() is None,
    {
        SplitStorage { buf_a: None, buf_b: None }
    }

    /// Takes the buffers that a frame of `count` instances was uploaded
    /// into, the first and second halves of each instance. A frame without
    /// instances uploads nothing: the storage stays as it was and the
    /// buffers passed are dropped. After any other frame both buffers
    /// exist, so the storage is ready exactly when some frame had instances.
    pub fn update(&mut self, count: usize, a: A, b: B)
        ensures
            count == 0 ==> final(self).part_a() == old(self).part_a() && final(self).part_b() == old(
                self,
            ).part_b(),
            count > 0 ==> final(self).part_a() == Some(a) && final(self).part_b() == Some(b),
            final(self).ready() == (old(self).ready() || count > 0),
    {
        if count == 0 {
            return;
        }
        self.buf_a = Some(a);
        self.buf_b = Some(b);
    }

    /// The two buffers to bind to the instance vertex slots, when both
    /// exist; nothing is bound otherwise.
    pub fn bind(&self) -> (r: Option<(&A, &B)>)
        ensures
            r is Some <==> self.ready(),
            r matches Some((a, b)) ==> Some(*a) == self.part_a() && Some(*b) == self.part_b(),
    {
        match (&self.buf_a, &self.buf_b) {
            (Some(a), Some(b)) => Some((a, b)),
            _ => None,
        }
    }

    /// Whether both buffers exist.
    pub fn is_ready(&self) -> (r: bool)
        ensures
            r == self.ready(),
    {
        self.buf_a.is_some() && self.buf_b.is_some()
    }
}

} // verus!
