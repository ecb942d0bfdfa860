use vstd::prelude::*;
use std::sync::Arc;
use crate::builder::FramePipelineBuilder;
use crate::chain::FrameFilter;
use crate::channel::channel_bounded;
use crate::envelope::PacketEnvelope;
use crate::error::FlowError;
use crate::graph::{StageNode, CHANNEL_CAPACITY};
use crate::stream::{
    first_unresolved, init_streams, spec_entry_codec, spec_entry_error, spec_entry_hw,
    DecoderStream, DemuxOptions, StreamEntry,
};

verus! {

/// One opened input: its source-stream table and the packet
/// destinations the reading worker feeds.  Each destination entry
/// carries the input stream it serves and, for entries that bypass
/// decoding, the output stream index it copies to.
pub struct Demuxer<F> {
    pub url: String,
    pub is_set_read_callback: bool,
    pub ts_offset: i64,
    pub frame_pipelines: Option<Vec<FramePipelineBuilder<F>>>,
    pub start_time_us: Option<i64>,
    pub recording_time_us: Option<i64>,
    pub exit_on_error: Option<bool>,
    pub stream_loop: Option<i32>,
    pub node: Arc<StageNode>,
    pub streams: Vec<DecoderStream>,
    pub dsts: Vec<(crossbeam_channel::Sender<PacketEnvelope>, usize, Option<usize>)>,
}

impl<F: FrameFilter> Demuxer<F> {
    /// Opens the registry for one input: builds the stream table from
    /// the per-stream facts and lookups, with no destination yet.  The
    /// registry opens exactly when every stream's acceleration and
    /// decoder resolve; the first failing stream's error aborts it.
    pub fn new(
        url: String,
        is_set_read_callback: bool,
        ts_offset: i64,
        frame_pipelines: Option<Vec<FramePipelineBuilder<F>>>,
        start_time_us: Option<i64>,
        recording_time_us: Option<i64>,
        exit_on_error: Option<bool>,
        stream_loop: Option<i32>,
        entries: Vec<StreamEntry>,
        opts: &DemuxOptions,
    ) -> (r: Result<Demuxer<F>, FlowError>)
        ensures
            r is Ok <==> first_unresolved(entries@, *opts) is None,
            r matches Err(e) ==> first_unresolved(entries@, *opts) matches Some(b)
                && spec_entry_error(e, entries@[b], *opts),
            r matches Ok(d) ==> {
                &&& d.url@ == url@
                &&& d.is_set_read_callback == is_set_read_callback
                &&& d.ts_offset == ts_offset
                &&& d.start_time_us == start_time_us
                &&& d.recording_time_us == recording_time_us
                &&& d.exit_on_error == exit_on_error
                &&& d.stream_loop == stream_loop
                &&& d.streams@.len() == entries@.len()
                &&& d.dsts@.len() == 0
                &&& forall|j: int|
                    0 <= j < d.streams@.len() ==> {
                        &&& (#[trigger] d.streams@[j]).stream_index == j
                        &&& d.streams@[j].codec_type == entries@[j].codec_type
                        &&& d.streams@[j].codec_id == entries@[j].codec_id
                        &&& d.streams@[j].linklabel == entries@[j].linklabel
                        &&& d.streams@[j].duration == entries@[j].duration
                        &&& d.streams@[j].time_base == entries@[j].time_base
                        &&& d.streams@[j].avg_framerate == entries@[j].avg_framerate
                        &&& d.streams@[j].hw == spec_entry_hw(entries@[j], *opts)
                        &&& Some(d.streams@[j].codec) == spec_entry_codec(entries@[j], *opts)
                        &&& d.streams@[j].src is None
                        &&& d.streams@[j].dsts@.len() == 0
                    }
            },
    {
        let streams = match init_streams(entries, opts) {
            Ok(s) => s,
            Err(e) => {
                return Err(e);
            }
        };
        Ok(
            Demuxer {
                url,
                is_set_read_callback,
                ts_offset,
                frame_pipelines,
                start_time_us,
                recording_time_us,
                exit_on_error,
                stream_loop,
                node: Arc::new(StageNode::new_source()),
                streams,
                dsts: Vec::new(),
            },
        )
    }

    /// Registers a packet destination copying input stream
    /// `input_stream_index` to output stream `output_stream_index`.
    pub fn add_packet_dst(
        &mut self,
        packet_dst: crossbeam_channel::Sender<PacketEnvelope>,
        input_stream_index: usize,
        output_stream_index: usize,
    )
        ensures
            *final(self) == (Demuxer { dsts: final(self).dsts, ..*old(self) }),
            final(self).dsts@ == old(self).dsts@.push(
                (packet_dst, input_stream_index, Some(output_stream_index)),
            ),
    {
        self.dsts.push((packet_dst, input_stream_index, Some(output_stream_index)));
    }

    /// The whole stream table.
    pub fn get_streams(&self) -> (r: &Vec<DecoderStream>)
        ensures
            r == &self.streams,
    {
        &self.streams
    }

    /// The whole stream table, for mutation.
    pub fn get_streams_mut(&mut self) -> (r: &mut Vec<DecoderStream>)
        ensures
            *r == old(self).streams,
            *final(self) == (Demuxer { streams: *final(r), ..*old(self) }),
    {
        &mut self.streams
    }

    /// One stream, by position in the table.
    pub fn get_stream(&self, index: usize) -> (r: &DecoderStream)
        requires
            index < self.streams@.len(),
        ensures
            *r == self.streams@[index as int],
    {
        &self.streams[index]
    }

    /// One stream, by position, for mutation.
    pub fn get_stream_mut(&mut self, index: usize) -> (r: &mut DecoderStream)
        requires
            index < old(self).streams@.len(),
        ensures
            *r == old(self).streams@[index as int],
            *final(self) == (Demuxer { streams: final(self).streams, ..*old(self) }),
            final(self).streams@ == old(self).streams@.update(index as int, *final(r)),
    {
        &mut self.streams[index]
    }

    /// Connects a stream into the graph: a fresh bounded packet channel
    /// whose sender joins the destinations and whose receiver becomes
    /// the stream's source.  Connecting a stream already in use is a
    /// no-op, so connecting twice changes nothing.
    pub fn connect_stream(&mut self, index: usize)
        requires
            index < old(self).streams@.len(),
        ensures
            old(self).streams@[index as int].src is Some ==> *final(self) == *old(self),
            old(self).streams@[index as int].src is None ==> {
                &&& final(self).streams@.len() == old(self).streams@.len()
                &&& forall|j: int|
                    0 <= j < old(self).streams@.len() && j != index as int
                        ==> final(self).streams@[j] == old(self).streams@[j]
                &&& final(self).streams@[index as int].src is Some
                &&& final(self).streams@[index as int] == (DecoderStream {
                    src: final(self).streams@[index as int].src,
                    ..old(self).streams@[index as int]
                })
                &&& final(self).dsts@.len() == old(self).dsts@.len() + 1
                &&& forall|j: int|
                    0 <= j < old(self).dsts@.len() ==> final(self).dsts@[j] == old(self).dsts@[j]
                &&& final(self).dsts@[old(self).dsts@.len() as int].1 == index
                &&& final(self).dsts@[old(self).dsts@.len() as int].2 is None
                &&& *final(self) == (Demuxer {
                    streams: final(self).streams,
                    dsts: final(self).dsts,
                    ..*old(self)
                })
            },
    {
        if self.streams[index].is_used() {
            return ;
        }
        let (sender, receiver) = channel_bounded(CHANNEL_CAPACITY);
        self.dsts.push((sender, index, None));
        let stream = &mut self.streams[index];
        stream.set_src(receiver);
    }

    /// Takes every packet destination out, for the reading worker.
    pub fn take_dsts(&mut self) -> (r: Vec<
        (crossbeam_channel::Sender<PacketEnvelope>, usize, Option<usize>),
    >)
        ensures
            *final(self) == (Demuxer { dsts: final(self).dsts, ..*old(self) }),
            final(self).dsts@.len() == 0,
            r@ == old(self).dsts@,
    {
        let mut out: Vec<(crossbeam_channel::Sender<PacketEnvelope>, usize, Option<usize>)> =
            Vec::new();
        core::mem::swap(&mut out, &mut self.dsts);
        out
    }

    /// Whether no destination is registered yet.
    pub fn destination_is_empty(&self) -> (r: bool)
        ensures
            r == (self.dsts@.len() == 0),
    {
        self.dsts.len() == 0
    }
}

} // verus!
