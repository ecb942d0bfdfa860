use frameflow::attrs::AttributeMap;
use frameflow::builder::FramePipelineBuilder;
use frameflow::chain::FrameFilter;
use frameflow::channel::channel_bounded;
use frameflow::control::{RunStatus, SchedulerControl};
use frameflow::envelope::{Envelope, EnvelopeMeta, Payload, Rational};
use frameflow::error::FlowError;
use frameflow::media::MediaKind;
use frameflow::scheduler::{
    input_pipeline_init, sink_entry, source_entry, worker_entry, ChainJob, Scheduler, SourceJob,
};
use frameflow::stream::{CodecInfo, DecoderStream, HwAccelConfig, HwAccelId, PixelFormatChoice};

/// Stage implementations the scenarios plug into the chain.
enum TestFilter {
    /// Passes every unit through unchanged.
    Pass,
    /// Fails the push hook on the `fail_at`-th unit it sees.
    FailAt { fail_at: u64, seen: u64 },
    /// Buffers every pushed unit and releases them on the pull path.
    Buffer { held: Vec<Payload> },
    /// Fails its setup hook before any unit flows.
    BadInit,
}

impl FrameFilter for TestFilter {
    fn kind_spec(&self) -> MediaKind {
        MediaKind::Video
    }

    fn media_type(&self) -> MediaKind {
        MediaKind::Video
    }

    fn init(&mut self, _stage_name: &String, _attrs: &mut AttributeMap) -> Result<(), String> {
        match self {
            TestFilter::BadInit => Err(String::from("setup fault")),
            _ => Ok(()),
        }
    }

    fn filter_frame(
        &mut self,
        frame: Payload,
        _stage_name: &String,
        _attrs: &mut AttributeMap,
    ) -> Result<Option<Payload>, String> {
        match self {
            TestFilter::Pass => Ok(Some(frame)),
            TestFilter::FailAt { fail_at, seen } => {
                *seen += 1;
                if *seen == *fail_at {
                    Err(String::from("hook fault"))
                } else {
                    Ok(Some(frame))
                }
            }
            TestFilter::Buffer { held } => {
                held.push(frame);
                Ok(None)
            }
            TestFilter::BadInit => Ok(Some(frame)),
        }
    }

    fn request_frame(
        &mut self,
        _stage_name: &String,
        _attrs: &mut AttributeMap,
    ) -> Result<Option<Payload>, String> {
        match self {
            TestFilter::Buffer { held } => {
                if held.is_empty() {
                    Ok(None)
                } else {
                    Ok(Some(held.remove(0)))
                }
            }
            _ => Ok(None),
        }
    }

    fn uninit(&mut self, _stage_name: &String, _attrs: &mut AttributeMap) {}
}

fn unit(i: u8) -> Envelope {
    Envelope { frame: Payload { data: vec![i], pts: i as i64 }, meta: EnvelopeMeta::bare(0) }
}

fn units(n: u8) -> Vec<Envelope> {
    (0..n).map(unit).collect()
}

/// Runs source, chain worker and sink to completion, in that order,
/// over channels wide enough to hold every unit in flight.
fn run_flow(
    control: &SchedulerControl,
    produced: Vec<Envelope>,
    stage: TestFilter,
) -> Vec<Envelope> {
    let (src_s, src_r) = channel_bounded::<Envelope>(512);
    let (out_s, out_r) = channel_bounded::<Envelope>(512);
    source_entry(produced, src_s, control.clone_handle());
    let job = ChainJob {
        builder: FramePipelineBuilder::new(MediaKind::Video).filter("stage", stage),
        stream_index: 0,
        linklabel: None,
        receiver: src_r,
        senders: vec![out_s],
        fg_input_index: 0,
    };
    worker_entry(job, control.clone_handle());
    sink_entry(out_r, 1_000_000)
}

#[test]
fn hundred_units_arrive_in_order() {
    let control = SchedulerControl::new();
    let collected = run_flow(&control, units(100), TestFilter::Pass);
    assert_eq!(collected.len(), 100);
    for (i, env) in collected.iter().enumerate() {
        assert_eq!(env.frame.data, vec![i as u8]);
        assert_eq!(env.frame.pts, i as i64);
    }
    assert!(control.take_result().is_ok());
}

#[test]
fn failing_stage_stops_the_graph_after_its_unit() {
    let control = SchedulerControl::new();
    let collected = run_flow(
        &control,
        units(100),
        TestFilter::FailAt { fail_at: 50, seen: 0 },
    );
    // the 50th unit failed inside the stage: exactly 49 made it through
    assert_eq!(collected.len(), 49);
    for (i, env) in collected.iter().enumerate() {
        assert_eq!(env.frame.data, vec![i as u8]);
    }
    match control.take_result() {
        Err(FlowError::FilterProcess { stage, detail }) => {
            assert_eq!(stage, "stage");
            assert_eq!(detail, "hook fault");
        }
        other => panic!("expected the stage's push error, got {:?}", other.map(|_| ())),
    }
    assert_eq!(control.status(), RunStatus::Ending);
}

#[test]
fn buffering_stage_drains_on_the_pull_path() {
    let control = SchedulerControl::new();
    let collected = run_flow(&control, units(5), TestFilter::Buffer { held: Vec::new() });
    assert_eq!(collected.len(), 5);
    for (i, env) in collected.iter().enumerate() {
        assert_eq!(env.frame.data, vec![i as u8]);
    }
    assert!(control.take_result().is_ok());
}

#[test]
fn pause_then_resume_changes_nothing_delivered() {
    let baseline_control = SchedulerControl::new();
    let baseline = run_flow(&baseline_control, units(20), TestFilter::Pass);

    let control = SchedulerControl::new();
    control.pause();
    assert_eq!(control.status(), RunStatus::Paused);
    control.resume();
    assert_eq!(control.status(), RunStatus::Running);
    let collected = run_flow(&control, units(20), TestFilter::Pass);

    assert_eq!(collected.len(), baseline.len());
    for (a, b) in collected.iter().zip(baseline.iter()) {
        assert_eq!(a.frame.data, b.frame.data);
        assert_eq!(a.frame.pts, b.frame.pts);
    }
    assert!(control.take_result().is_ok());
}

#[test]
fn paused_workers_block_until_resumed_or_ended() {
    let control = SchedulerControl::new();
    control.pause();
    // with the status paused, the cooperative wait never reports running;
    // a worker whose poll budget runs dry behaves as if cancelled
    assert_eq!(control.wait_until_not_paused(3), RunStatus::Ending);
    control.resume();
    assert_eq!(control.wait_until_not_paused(3), RunStatus::Running);
}

#[test]
fn cancel_stops_production_before_any_unit() {
    let control = SchedulerControl::new();
    control.cancel();
    let collected = run_flow(&control, units(10), TestFilter::Pass);
    assert_eq!(collected.len(), 0);
    assert!(control.take_result().is_ok());
}

#[test]
fn worker_exits_when_every_destination_is_gone() {
    let control = SchedulerControl::new();
    let (src_s, src_r) = channel_bounded::<Envelope>(64);
    let (out_s, out_r) = channel_bounded::<Envelope>(64);
    drop(out_r);
    source_entry(units(10), src_s, control.clone_handle());
    let job = ChainJob {
        builder: FramePipelineBuilder::new(MediaKind::Video).filter("stage", TestFilter::Pass),
        stream_index: 0,
        linklabel: None,
        receiver: src_r,
        senders: vec![out_s],
        fg_input_index: 0,
    };
    // every destination is closed: the worker exits with success
    worker_entry(job, control.clone_handle());
    assert!(control.take_result().is_ok());
}

#[test]
fn spliced_chain_stands_between_stream_and_consumer() {
    let mut sched: Scheduler<TestFilter> = Scheduler::new();
    let (consumer_s, consumer_r) = channel_bounded::<Envelope>(64);
    let mut stream = DecoderStream::new(
        0,
        None,
        MediaKind::Video,
        1,
        CodecInfo { id: 1, kind: MediaKind::Video, name: String::from("dec") },
        0,
        Rational { num: 1, den: 25 },
        Rational { num: 25, den: 1 },
        HwAccelConfig {
            id: HwAccelId::NoAccel,
            device_type: None,
            device: None,
            output_format: PixelFormatChoice::Unset,
        },
    );
    stream.add_dst(consumer_s);
    let mut streams = vec![stream];

    let builder = FramePipelineBuilder::new(MediaKind::Video).filter("stage", TestFilter::Pass);
    input_pipeline_init(&mut sched, builder, &mut streams).expect("the video stream resolves");
    // the stream now feeds the chain, and the chain feeds the original consumer
    assert_eq!(streams[0].dsts.len(), 1);

    // the spliced channel is bounded; stay within its capacity since
    // nothing is consuming yet
    for i in 0..6u8 {
        streams[0].dsts[0].send(unit(i)).expect("chain input open");
    }
    drop(streams);

    let (_sources, chains, _sinks) = sched.take_work();
    for job in chains {
        worker_entry(job, sched.control_handle());
    }
    let collected = sink_entry(consumer_r, 1_000_000);
    assert_eq!(collected.len(), 6);
    for (i, env) in collected.iter().enumerate() {
        assert_eq!(env.frame.data, vec![i as u8]);
    }
    assert!(sched.take_result().is_ok());
}

#[test]
fn empty_chain_configuration_is_dropped_quietly() {
    let mut sched: Scheduler<TestFilter> = Scheduler::new();
    let mut streams = Vec::new();
    let builder = FramePipelineBuilder::new(MediaKind::Video);
    // no stages: nothing to bind, nothing to register, no error either
    input_pipeline_init(&mut sched, builder, &mut streams).expect("an empty chain is dropped");
    let (_sources, chains, _sinks) = sched.take_work();
    assert!(chains.is_empty());
}

#[test]
fn fan_out_reaches_both_sinks_with_equal_content() {
    let control = SchedulerControl::new();
    let (src_s, src_r) = channel_bounded::<Envelope>(512);
    let (out1_s, out1_r) = channel_bounded::<Envelope>(512);
    let (out2_s, out2_r) = channel_bounded::<Envelope>(512);
    source_entry(units(5), src_s, control.clone_handle());
    let job = ChainJob {
        builder: FramePipelineBuilder::new(MediaKind::Video).filter("stage", TestFilter::Pass),
        stream_index: 0,
        linklabel: None,
        receiver: src_r,
        senders: vec![out1_s, out2_s],
        fg_input_index: 2,
    };
    worker_entry(job, control.clone_handle());
    let first = sink_entry(out1_r, 1_000_000);
    let second = sink_entry(out2_r, 1_000_000);
    assert_eq!(first.len(), 5);
    assert_eq!(second.len(), 5);
    for i in 0..5 {
        assert_eq!(first[i].frame.data, vec![i as u8]);
        assert_eq!(second[i].frame.data, vec![i as u8]);
        assert_eq!(first[i].frame.pts, second[i].frame.pts);
        assert_eq!(first[i].meta.fg_input_index, 2);
    }
    assert!(control.take_result().is_ok());
}

#[test]
fn failing_setup_surfaces_an_init_error() {
    let control = SchedulerControl::new();
    let collected = run_flow(&control, units(3), TestFilter::BadInit);
    assert_eq!(collected.len(), 0);
    match control.take_result() {
        Err(FlowError::FilterInit { stage, detail }) => {
            assert_eq!(stage, "stage");
            assert_eq!(detail, "setup fault");
        }
        other => panic!("expected the stage's setup error, got {:?}", other.map(|_| ())),
    }
}

#[test]
fn control_handles_share_one_state() {
    let control = SchedulerControl::new();
    let other = control.clone_handle();
    other.pause();
    assert_eq!(control.status(), RunStatus::Paused);
    control.resume();
    assert_eq!(other.status(), RunStatus::Running);
}

#[test]
fn first_error_wins_and_later_ones_are_discarded() {
    let control = SchedulerControl::new();
    assert!(control.set_error(FlowError::DecoderMissing));
    assert!(!control.set_error(FlowError::ThreadSpawnFailed));
    assert_eq!(control.status(), RunStatus::Ending);
    assert!(matches!(control.take_result(), Err(FlowError::DecoderMissing)));
    // the slot surfaces its error exactly once
    assert!(control.take_result().is_ok());
}

#[test]
fn scheduler_hands_out_registered_work() {
    let mut sched: Scheduler<TestFilter> = Scheduler::new();
    let (src_s, src_r) = channel_bounded::<Envelope>(512);
    let (out_s, out_r) = channel_bounded::<Envelope>(512);
    sched.add_source(units(30), src_s);
    sched.add_pipeline(ChainJob {
        builder: FramePipelineBuilder::new(MediaKind::Video).filter("stage", TestFilter::Pass),
        stream_index: 0,
        linklabel: None,
        receiver: src_r,
        senders: vec![out_s],
        fg_input_index: 0,
    });
    sched.add_sink(out_r);
    let (sources, chains, sinks) = sched.take_work();
    assert_eq!(sources.len(), 1);
    assert_eq!(chains.len(), 1);
    assert_eq!(sinks.len(), 1);
    // the runner gives each work order to a worker; here they run in turn
    for SourceJob { units, dst } in sources {
        source_entry(units, dst, sched.control_handle());
    }
    for job in chains {
        worker_entry(job, sched.control_handle());
    }
    let mut outputs = Vec::new();
    for receiver in sinks {
        outputs.push(sink_entry(receiver, 1_000_000));
    }
    assert_eq!(outputs.len(), 1);
    assert_eq!(outputs[0].len(), 30);
    assert!(sched.take_result().is_ok());
}
