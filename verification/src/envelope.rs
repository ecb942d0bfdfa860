use vstd::prelude::*;

verus! {

/// A timing base or frame rate as an exact fraction.
#[derive(Clone, Copy, Debug, PartialEq, Eq, Structural)]
pub struct Rational {
    pub num: i32,
    pub den: i32,
}

/// One data-unit buffer: the payload that moves through a chain.
///
/// `data` is the unit's content; `pts` its presentation timestamp.  A unit
/// with empty `data` carries properties only (for example an end-of-stream
/// timestamp).
pub struct Payload {
    pub data: Vec<u8>,
    pub pts: i64,
}

/// The sideband metadata that travels with a payload through the graph.
///
/// `fg_input_index` identifies which graph input produced the unit; it is
/// read when a filter stage has several inputs.
pub struct EnvelopeMeta {
    pub framerate: Option<Rational>,
    pub bits_per_raw_sample: i32,
    pub input_stream_width: u32,
    pub input_stream_height: u32,
    pub subtitle_header: Vec<u8>,
    pub fg_input_index: usize,
}

/// One data unit together with its sideband metadata.
pub struct Envelope {
    pub frame: Payload,
    pub meta: EnvelopeMeta,
}

/// One coded data unit, as read from a container and routed by stream.
pub struct PacketEnvelope {
    pub data: Vec<u8>,
    pub stream_index: usize,
    pub pts: i64,
}

impl EnvelopeMeta {
    /// The metadata attached to a unit that a chain forwards downstream:
    /// everything is cleared except the producing input's index.
    pub fn bare(fg_input_index: usize) -> (r: EnvelopeMeta)
        ensures
            r.framerate is None,
            r.bits_per_raw_sample == 0,
            r.input_stream_width == 0,
            r.input_stream_height == 0,
            r.subtitle_header@ == Seq::<u8>::empty(),
            r.fg_input_index == fg_input_index,
    {
        EnvelopeMeta {
            framerate: None,
            bits_per_raw_sample: 0,
            input_stream_width: 0,
            input_stream_height: 0,
            subtitle_header: Vec::new(),
            fg_input_index,
        }
    }
}

/// A bounded pool of reusable payload buffers.
///
/// Issuing a buffer pops a recycled one when any is available and allocates
/// a fresh one otherwise, so peak memory stays bounded by what was ever
/// issued at once.  `issued` counts every buffer the pool has handed out.
pub struct BufferPool {
    pub free: Vec<Payload>,
    pub issued: Ghost<nat>,
}

impl BufferPool {
    /// An empty pool: nothing recycled yet, nothing issued yet.
    pub fn new() -> (r: BufferPool)
        ensures
            r.spec_available() == 0,
            r.issued@ == 0nat,
    {
        BufferPool { free: Vec::new(), issued: Ghost(0nat) }
    }

    /// How many recycled buffers are ready for reuse.
    pub fn available(&self) -> (r: usize)
        ensures
            r == self.spec_available(),
    {
        self.free.len()
    }

    pub open spec fn spec_available(self) -> nat {
        self.free@.len()
    }

    /// Issues one buffer: a recycled one when available, else a fresh empty
    /// one.  Either way the buffer counts as issued.
    pub fn get(&mut self) -> (r: Payload)
        ensures
            final(self).issued@ == old(self).issued@ + 1,
            final(self).spec_available() == if old(self).spec_available() > 0 {
                old(self).spec_available() - 1
            } else {
                0int
            },
    {
        self.issued = Ghost(self.issued@ + 1);
        match self.free.pop() {
            Some(p) => p,
            None => Payload { data: Vec::new(), pts: 0 },
        }
    }

    /// Returns a buffer to the pool for reuse.
    pub fn put(&mut self, p: Payload)
        ensures
            final(self).issued@ == old(self).issued@,
            final(self).spec_available() == old(self).spec_available() + 1,
    {
        self.free.push(p);
    }
}

/// Copies a payload's content and timestamp into a buffer issued from the
/// pool: the reference-sharing duplicate used on the fan-out path.
pub fn duplicate_payload(src: &Payload, pool: &mut BufferPool) -> (r: Payload)
    ensures
        r.data@ == src.data@,
        r.pts == src.pts,
        final(pool).issued@ == old(pool).issued@ + 1,
{
    let mut buf = pool.get();
    buf.data.clear();
    buf.data.extend_from_slice(src.data.as_slice());
    buf.pts = src.pts;
    buf
}

} // verus!
