use vstd::prelude::*;
use crate::binding::{
    match_decoder_stream, match_encoder_stream, spec_binding_error, spec_resolve_decoder,
    spec_resolve_encoder,
};
use crate::builder::FramePipelineBuilder;
use crate::chain::FrameFilter;
use crate::channel::{channel_recv_timeout, channel_send, RecvOutcome};
use crate::control::{RunStatus, SchedulerControl};
use crate::envelope::{BufferPool, Envelope};
use crate::error::FlowError;
use crate::stream::{DecoderStream, EncoderStream};
use crate::worker::{frame_filter_init, pipeline_uninit, run_pipeline};

verus! {

/// The poll budget workers run with: far beyond any realistic run.
pub const WORKER_BUDGET: u64 = 0xFFFF_FFFF_FFFF_FFFF;

/// A source stage's work order: the units it will produce, in order,
/// and the channel it feeds.
pub struct SourceJob {
    pub units: Vec<Envelope>,
    pub dst: crossbeam_channel::Sender<Envelope>,
}

/// A chain worker's work order: the chain's configuration and the
/// resolved channel endpoints it will pump units between.
pub struct ChainJob<F> {
    pub builder: FramePipelineBuilder<F>,
    pub stream_index: usize,
    pub linklabel: Option<String>,
    pub receiver: crossbeam_channel::Receiver<Envelope>,
    pub senders: Vec<crossbeam_channel::Sender<Envelope>>,
    pub fg_input_index: usize,
}

/// A source worker: produces its units in order, checking the shared
/// status between units — pausing holds production, ending stops it —
/// and stops quietly when its destination is gone.  Dropping the
/// sender on exit signals completion downstream.
pub fn source_entry(units: Vec<Envelope>, dst: crossbeam_channel::Sender<Envelope>, control:
    SchedulerControl)
{
    let mut rest = units;
    loop
        decreases rest@.len(),
    {
        if rest.len() == 0 {
            return ;
        }
        let status = control.wait_until_not_paused(WORKER_BUDGET);
        if status == RunStatus::Ending {
            return ;
        }
        let unit = rest.remove(0);
        match channel_send(&dst, unit) {
            Ok(()) => {}
            Err(_) => {
                return ;
            }
        }
    }
}

/// A sink worker: collects every unit its channel delivers, in arrival
/// order, until the upstream closes the channel.  It does not watch
/// the shared status: when the graph ends, its upstream exits and the
/// channel closes, so everything already delivered is still collected
/// and nothing after the stop is.
pub fn sink_entry(receiver: crossbeam_channel::Receiver<Envelope>, mut budget: u64) -> (r: Vec<
    Envelope,
>) {
    let mut collected: Vec<Envelope> = Vec::new();
    loop
        decreases budget,
    {
        if budget == 0 {
            return collected;
        }
        budget = budget - 1;
        match channel_recv_timeout(&receiver, 1) {
            RecvOutcome::Got(env) => {
                collected.push(env);
            }
            RecvOutcome::TimedOut => {}
            RecvOutcome::Closed => {
                return collected;
            }
        }
    }
}

/// A chain worker's whole life: build the chain, run every stage's
/// setup, pump units until completion or failure, and tear the chain
/// down whatever happened.  The first error is escalated once to the
/// shared slot, which also asks the rest of the graph to end.
pub fn worker_entry<F: FrameFilter>(job: ChainJob<F>, control: SchedulerControl)
    requires
        job.builder.wf(),
{
    let ChainJob { builder, stream_index, linklabel, receiver, mut senders, fg_input_index } = job;
    let mut pipeline = builder.build(stream_index, linklabel);
    let mut pool = BufferPool::new();
    match frame_filter_init(&mut pipeline) {
        Err(e) => {
            pipeline_uninit(&mut pipeline);
            control.set_error(e);
            return ;
        }
        Ok(()) => {}
    }
    match run_pipeline(
        &mut pipeline,
        &receiver,
        &mut senders,
        fg_input_index,
        &mut pool,
        &control,
        WORKER_BUDGET,
        WORKER_BUDGET,
    ) {
        Err(e) => {
            control.set_error(e);
        }
        Ok(()) => {}
    }
    pipeline_uninit(&mut pipeline);
}

/// Owns the stage graph: the registered work orders, and the shared
/// control state every worker observes.
///
/// The scheduler itself runs no stage logic and starts no threads: a
/// runner outside the library takes the work orders with `take_work`,
/// gives each to [`source_entry`], [`worker_entry`] or [`sink_entry`]
/// on a thread of its own, and after every worker has finished
/// surfaces the single terminal error through `take_result`.
pub struct Scheduler<F> {
    pub control: SchedulerControl,
    pub sources: Vec<SourceJob>,
    pub chains: Vec<ChainJob<F>>,
    pub sinks: Vec<crossbeam_channel::Receiver<Envelope>>,
}

impl<F: FrameFilter> Scheduler<F> {
    /// Every registered chain configuration is well formed.
    pub open spec fn inv(self) -> bool {
        forall|j: int| 0 <= j < self.chains@.len() ==> (#[trigger] self.chains@[j]).builder.wf()
    }

    /// A scheduler with nothing registered, in the running state.
    pub fn new() -> (r: Scheduler<F>)
        ensures
            r.inv(),
            r.sources@.len() == 0,
            r.chains@.len() == 0,
            r.sinks@.len() == 0,
    {
        Scheduler {
            control: SchedulerControl::new(),
            sources: Vec::new(),
            chains: Vec::new(),
            sinks: Vec::new(),
        }
    }

    /// Registers a source producing these units into this channel.
    pub fn add_source(&mut self, units: Vec<Envelope>, dst: crossbeam_channel::Sender<Envelope>)
        requires
            old(self).inv(),
        ensures
            final(self).inv(),
            final(self).sources@ == old(self).sources@.push(SourceJob { units, dst }),
            final(self).chains@ == old(self).chains@,
            final(self).sinks@ == old(self).sinks@,
            final(self).control == old(self).control,
    {
        self.sources.push(SourceJob { units, dst });
    }

    /// Registers a chain worker's work order.
    pub fn add_pipeline(&mut self, job: ChainJob<F>)
        requires
            old(self).inv(),
            job.builder.wf(),
        ensures
            final(self).inv(),
            final(self).chains@ == old(self).chains@.push(job),
            final(self).sources@ == old(self).sources@,
            final(self).sinks@ == old(self).sinks@,
            final(self).control == old(self).control,
    {
        self.chains.push(job);
    }

    /// Registers a sink collecting from this channel.
    pub fn add_sink(&mut self, receiver: crossbeam_channel::Receiver<Envelope>)
        requires
            old(self).inv(),
        ensures
            final(self).inv(),
            final(self).sinks@ == old(self).sinks@.push(receiver),
            final(self).chains@ == old(self).chains@,
            final(self).sources@ == old(self).sources@,
            final(self).control == old(self).control,
    {
        self.sinks.push(receiver);
    }

    /// Hands every registered work order out to the runner, leaving
    /// the scheduler empty: one order per source, chain and sink, each
    /// meant for a worker thread of its own.
    pub fn take_work(&mut self) -> (r: (
        Vec<SourceJob>,
        Vec<ChainJob<F>>,
        Vec<crossbeam_channel::Receiver<Envelope>>,
    ))
        requires
            old(self).inv(),
        ensures
            final(self).inv(),
            final(self).chains@.len() == 0,
            final(self).sources@.len() == 0,
            final(self).sinks@.len() == 0,
            r.0@ == old(self).sources@,
            r.1@ == old(self).chains@,
            r.2@ == old(self).sinks@,
            forall|j: int| 0 <= j < r.1@.len() ==> (#[trigger] r.1@[j]).builder.wf(),
            final(self).control == old(self).control,
    {
        let mut sources: Vec<SourceJob> = Vec::new();
        let mut chains: Vec<ChainJob<F>> = Vec::new();
        let mut sinks: Vec<crossbeam_channel::Receiver<Envelope>> = Vec::new();
        core::mem::swap(&mut sources, &mut self.sources);
        core::mem::swap(&mut chains, &mut self.chains);
        core::mem::swap(&mut sinks, &mut self.sinks);
        (sources, chains, sinks)
    }

    /// Another handle on the shared control state, for a worker.
    pub fn control_handle(&self) -> (r: SchedulerControl)
        ensures
            r.lock == self.control.lock,
    {
        self.control.clone_handle()
    }

    /// Asks every worker to pause after its current unit.
    pub fn pause(&self) {
        self.control.pause();
    }

    /// Lets paused workers continue.
    pub fn resume(&self) {
        self.control.resume();
    }

    /// Asks every worker to exit at its next status check: the single
    /// cancellation mechanism.
    pub fn cancel(&self) {
        self.control.cancel();
    }

    /// Surfaces the error slot once every worker has finished: exactly
    /// one terminal error, or success.
    pub fn take_result(&self) -> (r: Result<(), FlowError>) {
        self.control.take_result()
    }
}

/// Registers one input-side chain: resolves which source stream it
/// binds to, splices a fresh channel between that stream and its
/// original destinations, and queues the chain worker's work order at
/// the end of the scheduler's list.  A chain with no stages is dropped
/// quietly and a failed resolution is reported; either way nothing is
/// registered and the scheduler is untouched.
pub fn input_pipeline_init<F: FrameFilter>(
    scheduler: &mut Scheduler<F>,
    pipeline_builder: FramePipelineBuilder<F>,
    decoder_streams: &mut Vec<DecoderStream>,
) -> (r: Result<(), FlowError>)
    requires
        old(scheduler).inv(),
        pipeline_builder.wf(),
    ensures
        final(scheduler).inv(),
        final(scheduler).sources@ == old(scheduler).sources@,
        final(scheduler).sinks@ == old(scheduler).sinks@,
        final(scheduler).control == old(scheduler).control,
        pipeline_builder.filters@.len() == 0 ==> r is Ok
            && final(decoder_streams)@ == old(decoder_streams)@
            && *final(scheduler) == *old(scheduler),
        pipeline_builder.filters@.len() > 0 ==> match spec_resolve_decoder(
            old(decoder_streams)@,
            pipeline_builder.stream_index,
            pipeline_builder.linklabel,
            pipeline_builder.media_type,
        ) {
            Some(p) => {
                let chosen = old(decoder_streams)@[p];
                let n = old(scheduler).chains@.len() as int;
                &&& r is Ok
                &&& final(decoder_streams)@[p].dsts@.len() == 1
                &&& final(scheduler).chains@.len() == n + 1
                &&& (forall|j: int|
                    0 <= j < n ==> final(scheduler).chains@[j] == old(scheduler).chains@[j])
                &&& final(scheduler).chains@[n].builder == pipeline_builder
                &&& final(scheduler).chains@[n].stream_index == chosen.stream_index
                &&& final(scheduler).chains@[n].linklabel == chosen.linklabel
                &&& final(scheduler).chains@[n].senders@ == chosen.dsts@
                &&& final(scheduler).chains@[n].fg_input_index == chosen.fg_input_index
            },
            None => (r matches Err(e) && spec_binding_error(
                e,
                pipeline_builder.stream_index,
                pipeline_builder.linklabel,
                pipeline_builder.media_type,
            )) && final(decoder_streams)@ == old(decoder_streams)@
                && *final(scheduler) == *old(scheduler),
        },
{
    if pipeline_builder.filters.len() == 0 {
        return Ok(());
    }
    let (stream_index, linklabel, receiver, senders, fg_input_index) = match match_decoder_stream(
        &pipeline_builder,
        decoder_streams,
    ) {
        Ok(t) => t,
        Err(e) => {
            return Err(e);
        }
    };
    scheduler.add_pipeline(
        ChainJob {
            builder: pipeline_builder,
            stream_index,
            linklabel,
            receiver,
            senders,
            fg_input_index,
        },
    );
    Ok(())
}

/// Registers one output-side chain: resolves which sink stream it
/// binds to, splices a fresh channel in front of that stream's
/// encoder, and queues the chain worker's work order at the end of the
/// scheduler's list.  A chain with no stages is dropped quietly and a
/// failed resolution is reported; either way nothing is registered and
/// the scheduler is untouched.
pub fn output_pipeline_init<F: FrameFilter>(
    scheduler: &mut Scheduler<F>,
    pipeline_builder: FramePipelineBuilder<F>,
    encoder_streams: &mut Vec<EncoderStream>,
) -> (r: Result<(), FlowError>)
    requires
        old(scheduler).inv(),
        pipeline_builder.wf(),
    ensures
        final(scheduler).inv(),
        final(scheduler).sources@ == old(scheduler).sources@,
        final(scheduler).sinks@ == old(scheduler).sinks@,
        final(scheduler).control == old(scheduler).control,
        pipeline_builder.filters@.len() == 0 ==> r is Ok
            && final(encoder_streams)@ == old(encoder_streams)@
            && *final(scheduler) == *old(scheduler),
        pipeline_builder.filters@.len() > 0 ==> match spec_resolve_encoder(
            old(encoder_streams)@,
            pipeline_builder.stream_index,
            pipeline_builder.linklabel,
            pipeline_builder.media_type,
        ) {
            Some(p) => {
                let chosen = old(encoder_streams)@[p];
                let n = old(scheduler).chains@.len() as int;
                &&& r is Ok
                &&& final(scheduler).chains@.len() == n + 1
                &&& (forall|j: int|
                    0 <= j < n ==> final(scheduler).chains@[j] == old(scheduler).chains@[j])
                &&& final(scheduler).chains@[n].builder == pipeline_builder
                &&& final(scheduler).chains@[n].stream_index == chosen.stream_index
                &&& final(scheduler).chains@[n].linklabel == chosen.linklabel
                &&& final(scheduler).chains@[n].receiver == chosen.src
                &&& final(scheduler).chains@[n].senders@.len() == 1
                &&& final(scheduler).chains@[n].fg_input_index == 0
            },
            None => (r matches Err(e) && spec_binding_error(
                e,
                pipeline_builder.stream_index,
                pipeline_builder.linklabel,
                pipeline_builder.media_type,
            )) && final(encoder_streams)@ == old(encoder_streams)@
                && *final(scheduler) == *old(scheduler),
        },
{
    if pipeline_builder.filters.len() == 0 {
        return Ok(());
    }
    let (stream_index, linklabel, receiver, sender) = match match_encoder_stream(
        &pipeline_builder,
        encoder_streams,
    ) {
        Ok(t) => t,
        Err(e) => {
            return Err(e);
        }
    };
    let mut senders: Vec<crossbeam_channel::Sender<Envelope>> = Vec::new();
    senders.push(sender);
    scheduler.add_pipeline(
        ChainJob {
            builder: pipeline_builder,
            stream_index,
            linklabel,
            receiver,
            senders,
            fg_input_index: 0,
        },
    );
    Ok(())
}

} // verus!
