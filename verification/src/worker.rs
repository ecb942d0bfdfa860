use vstd::prelude::*;
use crate::chain::{next_link, FrameFilter, FramePipeline};
use crate::channel::{channel_recv_timeout, channel_send, pause_briefly, RecvOutcome};
use crate::control::{RunStatus, SchedulerControl};
use crate::envelope::{duplicate_payload, BufferPool, Envelope, EnvelopeMeta, Payload};
use crate::error::FlowError;

verus! {

/// The elements of `s` whose flag is set, in their original order.
pub open spec fn mask_filter<T>(s: Seq<T>, f: Seq<bool>) -> Seq<T>
    decreases s.len(),
{
    if s.len() == 0 {
        Seq::empty()
    } else {
        let rest = mask_filter(s.drop_first(), f.drop_first());
        if f.len() > 0 && f[0] {
            seq![s[0]].add(rest)
        } else {
            rest
        }
    }
}

/// Appending one element extends a masked sequence exactly when its flag
/// is set.
pub proof fn lemma_mask_filter_snoc<T>(s: Seq<T>, f: Seq<bool>, x: T, b: bool)
    requires
        s.len() == f.len(),
    ensures
        mask_filter(s.push(x), f.push(b)) == if b {
            mask_filter(s, f).push(x)
        } else {
            mask_filter(s, f)
        },
    decreases s.len(),
{
    let s2 = s.push(x);
    let f2 = f.push(b);
    if s.len() == 0 {
        assert(s2.drop_first() =~= Seq::<T>::empty());
        assert(f2.drop_first() =~= Seq::<bool>::empty());
        assert(mask_filter(s, f) =~= Seq::<T>::empty());
        assert(mask_filter(s2.drop_first(), f2.drop_first()) =~= Seq::<T>::empty());
        assert(s2[0] == x);
        assert(f2[0] == b);
        if b {
            assert(mask_filter(s2, f2) =~= seq![x].add(Seq::<T>::empty()));
            assert(mask_filter(s2, f2) =~= mask_filter(s, f).push(x));
        } else {
            assert(mask_filter(s2, f2) =~= mask_filter(s, f));
        }
    } else {
        assert(s2.drop_first() =~= s.drop_first().push(x));
        assert(f2.drop_first() =~= f.drop_first().push(b));
        lemma_mask_filter_snoc(s.drop_first(), f.drop_first(), x, b);
        if b {
            assert(mask_filter(s2, f2) =~= mask_filter(s, f).push(x));
        } else {
            assert(mask_filter(s2, f2) =~= mask_filter(s, f));
        }
    }
}

/// A mask of set flags keeps the sequence as it is.
pub proof fn lemma_mask_filter_all_true<T>(s: Seq<T>)
    ensures
        mask_filter(s, Seq::new(s.len(), |j: int| true)) == s,
    decreases s.len(),
{
    let f = Seq::new(s.len(), |j: int| true);
    if s.len() > 0 {
        lemma_mask_filter_all_true(s.drop_first());
        assert(f.drop_first() =~= Seq::new(s.drop_first().len(), |j: int| true));
        assert(mask_filter(s, f) =~= s);
    }
}

/// Runs the push hook of the stage at arena index `i` on one unit.
///
/// The chain's shape survives whatever the hook does; only that stage's
/// implementation and the attribute map may change.  On success the
/// result carries the stage's successor, so the caller can continue the
/// walk, and the unit the stage yielded, if any.  A hook failure is
/// wrapped as a push-phase error naming the stage.
pub fn do_filter_frame<F: FrameFilter>(pipeline: &mut FramePipeline<F>, i: usize, frame: Payload)
    -> (r: Result<(Option<usize>, Option<Payload>), FlowError>)
    requires
        old(pipeline).wf(),
        exists|k: int|
            0 <= k < old(pipeline).order@.len() && old(pipeline).order@[k] == i as int,
    ensures
        final(pipeline).wf(),
        final(pipeline).same_structure(*old(pipeline)),
        r matches Ok((nx, _)) ==> final(pipeline).nodes@[i as int] matches Some(n) && nx
            == n.next,
        r matches Err(e) ==> (e matches FlowError::FilterProcess { stage, .. } && old(
            pipeline,
        ).nodes@[i as int] matches Some(n) && stage@ == n.name@),
{
    let ghost k = choose|k: int|
        0 <= k < old(pipeline).order@.len() && old(pipeline).order@[k] == i as int;
    let ghost oldp = *old(pipeline);
    match &mut pipeline.nodes[i] {
        Some(n) => {
            let res = n.filter.filter_frame(frame, &n.name, &mut pipeline.attributes);
            let nx = n.next;
            let out = match res {
                Ok(out) => Ok((nx, out)),
                Err(detail) => Err(
                    FlowError::FilterProcess { stage: n.name.clone(), detail },
                ),
            };
            proof {
                lemma_stage_update_preserves_shape(oldp, *pipeline, k);
            }
            out
        }
        None => {
            proof {
                assert(false);
            }
            Err(FlowError::SendAllocFailed)
        }
    }
}

/// Runs the pull hook of the stage at arena index `i`.
///
/// Same shape guarantees as the push path; a hook failure is wrapped as
/// a pull-phase error naming the stage.
pub fn do_request_frame<F: FrameFilter>(pipeline: &mut FramePipeline<F>, i: usize) -> (r: Result<
    (Option<usize>, Option<Payload>),
    FlowError,
>)
    requires
        old(pipeline).wf(),
        exists|k: int|
            0 <= k < old(pipeline).order@.len() && old(pipeline).order@[k] == i as int,
    ensures
        final(pipeline).wf(),
        final(pipeline).same_structure(*old(pipeline)),
        r matches Ok((nx, _)) ==> final(pipeline).nodes@[i as int] matches Some(n) && nx
            == n.next,
        r matches Err(e) ==> (e matches FlowError::FilterRequest { stage, .. } && old(
            pipeline,
        ).nodes@[i as int] matches Some(n) && stage@ == n.name@),
{
    let ghost k = choose|k: int|
        0 <= k < old(pipeline).order@.len() && old(pipeline).order@[k] == i as int;
    let ghost oldp = *old(pipeline);
    match &mut pipeline.nodes[i] {
        Some(n) => {
            let res = n.filter.request_frame(&n.name, &mut pipeline.attributes);
            let nx = n.next;
            let out = match res {
                Ok(out) => Ok((nx, out)),
                Err(detail) => Err(
                    FlowError::FilterRequest { stage: n.name.clone(), detail },
                ),
            };
            proof {
                lemma_stage_update_preserves_shape(oldp, *pipeline, k);
            }
            out
        }
        None => {
            proof {
                assert(false);
            }
            Err(FlowError::SendAllocFailed)
        }
    }
}

/// After a hook ran on the stage at position `k`, the chain keeps its
/// well-formedness and its shape: every field except that stage's
/// implementation and the attribute map is as it was.
proof fn lemma_stage_update_preserves_shape<F>(
    oldp: FramePipeline<F>,
    newp: FramePipeline<F>,
    k: int,
)
    requires
        oldp.wf(),
        0 <= k < oldp.order@.len(),
        newp.order == oldp.order,
        newp.head == oldp.head,
        newp.tail == oldp.tail,
        newp.stream_index == oldp.stream_index,
        newp.linklabel == oldp.linklabel,
        newp.media_type == oldp.media_type,
        newp.attributes.wf(),
        newp.nodes@.len() == oldp.nodes@.len(),
        newp.nodes@[oldp.order@[k]] matches Some(n) && oldp.nodes@[oldp.order@[k]] matches Some(
            m,
        ) && n.name == m.name && n.kind == m.kind && n.prev == m.prev && n.next == m.next,
        forall|j: int|
            0 <= j < newp.nodes@.len() && j != oldp.order@[k] ==> newp.nodes@[j] == oldp.nodes@[j],
    ensures
        newp.wf(),
        newp.same_structure(oldp),
{
    let ord = oldp.order@;
    assert forall|q: int| 0 <= q < ord.len() implies (#[trigger] newp.nodes@[ord[q]]) is Some
        && newp.node_at(q).next == oldp.node_at(q).next && newp.node_at(q).prev == oldp.node_at(
        q,
    ).prev && newp.node_at(q).kind == oldp.node_at(q).kind && newp.node_at(q).name == oldp.node_at(
        q,
    ).name by {
        if ord[q] != ord[k] {
            assert(newp.nodes@[ord[q]] == oldp.nodes@[ord[q]]);
        }
    }
    assert forall|j: int|
        0 <= j < newp.nodes@.len() && (#[trigger] newp.nodes@[j]) is Some implies ord.contains(
        j,
    ) by {
        if j != ord[k] {
            assert(oldp.nodes@[j] is Some);
        } else {
            assert(ord[k] == j);
        }
    }
    assert(newp.names() =~= oldp.names());
    assert(newp.wf());
}

/// Delivers one processed unit to every downstream destination.
///
/// The first `N - 1` sends carry a pooled duplicate of the payload, so
/// exactly `N - 1` buffers are issued and the single (or last) send moves
/// the original buffer without any duplication.  A destination whose
/// channel is gone is dropped from the set — never an error — and the
/// rest keep their order: the survivors are exactly a masked
/// subsequence of the old set.
pub fn forward_unit(
    payload: Payload,
    senders: &mut Vec<crossbeam_channel::Sender<Envelope>>,
    fg_input_index: usize,
    pool: &mut BufferPool,
)
    requires
        old(senders)@.len() >= 1,
    ensures
        final(pool).issued@ == old(pool).issued@ + old(senders)@.len() - 1,
        final(senders)@.len() <= old(senders)@.len(),
        exists|flags: Seq<bool>|
            flags.len() == old(senders)@.len() && final(senders)@ == mask_filter(
                old(senders)@,
                flags,
            ),
{
    let n = senders.len();
    let mut accepted: Vec<bool> = Vec::new();
    let mut i: usize = 0;
    while i + 1 < n
        invariant
            n == senders@.len(),
            senders@ == old(senders)@,
            i < n,
            accepted@.len() == i,
            pool.issued@ == old(pool).issued@ + i,
        decreases n - i,
    {
        let dup = duplicate_payload(&payload, pool);
        let env = Envelope { frame: dup, meta: EnvelopeMeta::bare(fg_input_index) };
        let sent = match channel_send(&senders[i], env) {
            Ok(()) => true,
            Err(_) => false,
        };
        accepted.push(sent);
        i = i + 1;
    }
    let env = Envelope { frame: payload, meta: EnvelopeMeta::bare(fg_input_index) };
    let sent = match channel_send(&senders[n - 1], env) {
        Ok(()) => true,
        Err(_) => false,
    };
    accepted.push(sent);

    let ghost old_senders = old(senders)@;
    let ghost flags = accepted@;
    let mut rest: Vec<crossbeam_channel::Sender<Envelope>> = Vec::new();
    core::mem::swap(&mut rest, senders);
    proof {
        assert(rest@ =~= old_senders.subrange(0, n as int));
        assert(old_senders.take(0) =~= Seq::<crossbeam_channel::Sender<Envelope>>::empty());
        assert(flags.take(0) =~= Seq::<bool>::empty());
    }
    let mut j: usize = 0;
    while j < n
        invariant
            n == old_senders.len(),
            flags.len() == n,
            accepted@ == flags,
            rest@ == old_senders.subrange(j as int, n as int),
            j <= n,
            senders@ == mask_filter(old_senders.take(j as int), flags.take(j as int)),
        decreases n - j,
    {
        let s = rest.remove(0);
        proof {
            assert(s == old_senders[j as int]);
            assert(rest@ =~= old_senders.subrange(j as int + 1, n as int));
            assert(old_senders.take(j as int + 1) =~= old_senders.take(j as int).push(
                old_senders[j as int],
            ));
            assert(flags.take(j as int + 1) =~= flags.take(j as int).push(flags[j as int]));
            lemma_mask_filter_snoc(
                old_senders.take(j as int),
                flags.take(j as int),
                old_senders[j as int],
                flags[j as int],
            );
        }
        if accepted[j] {
            senders.push(s);
        }
        j = j + 1;
    }
    proof {
        assert(old_senders.take(n as int) =~= old_senders);
        assert(flags.take(n as int) =~= flags);
        lemma_mask_filter_len(old_senders, flags);
    }
}

/// A masked sequence never grows.
proof fn lemma_mask_filter_len<T>(s: Seq<T>, f: Seq<bool>)
    ensures
        mask_filter(s, f).len() <= s.len(),
    decreases s.len(),
{
    if s.len() > 0 {
        lemma_mask_filter_len(s.drop_first(), f.drop_first());
    }
}

/// Pushes one unit through the chain from the stage `start` onward and
/// fans the surviving unit out to every destination.
///
/// A stage may consume the unit, in which case nothing is sent and the
/// destination set and pool are untouched.  Otherwise the unit that
/// leaves the last stage is delivered under the fan-out discipline of
/// [`forward_unit`].  The destination set only ever shrinks, and always
/// to a masked subsequence of what it was; a failed hook is reported as
/// a push-phase stage error.  With no destination at all the unit is
/// simply dropped — no hook runs and nothing changes — and with no
/// starting stage the unit is fanned out untouched.
pub fn run_filter_frame<F: FrameFilter>(
    pipeline: &mut FramePipeline<F>,
    frame: Payload,
    start: Option<usize>,
    senders: &mut Vec<crossbeam_channel::Sender<Envelope>>,
    fg_input_index: usize,
    pool: &mut BufferPool,
) -> (r: Result<(), FlowError>)
    requires
        old(pipeline).wf(),
        match start {
            Some(i) => exists|k: int|
                0 <= k < old(pipeline).order@.len() && old(pipeline).order@[k] == i as int,
            None => true,
        },
    ensures
        final(pipeline).wf(),
        final(pipeline).same_structure(*old(pipeline)),
        final(senders)@.len() <= old(senders)@.len(),
        exists|flags: Seq<bool>|
            flags.len() == old(senders)@.len() && final(senders)@ == mask_filter(
                old(senders)@,
                flags,
            ),
        final(pool).issued@ == old(pool).issued@ || (old(senders)@.len() >= 1
            && final(pool).issued@ == old(pool).issued@ + old(senders)@.len() - 1),
        r matches Err(e) ==> e.is_stage_error(),
        old(senders)@.len() == 0 ==> r is Ok && *final(pipeline) == *old(pipeline)
            && *final(pool) == *old(pool) && final(senders)@ == old(senders)@,
        start is None && old(senders)@.len() >= 1 ==> r is Ok
            && *final(pipeline) == *old(pipeline)
            && final(pool).issued@ == old(pool).issued@ + old(senders)@.len() - 1,
{
    let ghost oldp = *old(pipeline);
    let ghost old_senders = old(senders)@;
    if senders.len() == 0 {
        proof {
            lemma_mask_filter_all_true(old_senders);
        }
        return Ok(());
    }
    if start.is_none() {
        forward_unit(frame, senders, fg_input_index, pool);
        return Ok(());
    }
    let nlen = pipeline.nodes.len();
    let ghost ord = oldp.order@;
    let mut tmp: Option<Payload> = Some(frame);
    let mut cur: Option<usize> = start;
    let ghost k: int = match start {
        Some(i) => choose|k: int| 0 <= k < ord.len() && ord[k] == i as int,
        None => ord.len() as int,
    };
    loop
        invariant
            oldp == *old(pipeline),
            old_senders == old(senders)@,
            start is Some,
            pipeline.wf(),
            pipeline.same_structure(oldp),
            ord == pipeline.order@,
            pipeline.nodes@.len() == nlen as int,
            0 <= k <= ord.len(),
            cur == (if k < ord.len() {
                Some(ord[k] as usize)
            } else {
                None::<usize>
            }),
            senders@ == old_senders,
            pool.issued@ == old(pool).issued@,
            old_senders.len() >= 1,
            tmp is Some,
        decreases ord.len() - k,
    {
        match cur {
            None => {
                break;
            }
            Some(i) => {
                let f = tmp.take().unwrap();
                match do_filter_frame(pipeline, i, f) {
                    Ok((nx, out)) => {
                        proof {
                            assert(pipeline.node_at(k).next == next_link(ord, k));
                        }
                        match out {
                            None => {
                                proof {
                                    lemma_mask_filter_all_true(old_senders);
                                }
                                return Ok(());
                            }
                            Some(p) => {
                                tmp = Some(p);
                                cur = nx;
                                proof {
                                    k = k + 1;
                                }
                            }
                        }
                    }
                    Err(e) => {
                        proof {
                            lemma_mask_filter_all_true(old_senders);
                        }
                        return Err(e);
                    }
                }
            }
        }
    }
    let f = tmp.unwrap();
    forward_unit(f, senders, fg_input_index, pool);
    Ok(())
}

/// Runs every stage's setup hook in chain order.  The first failure is
/// wrapped as an init error naming the stage and stops the walk.
pub fn frame_filter_init<F: FrameFilter>(pipeline: &mut FramePipeline<F>) -> (r: Result<
    (),
    FlowError,
>)
    requires
        old(pipeline).wf(),
    ensures
        final(pipeline).wf(),
        final(pipeline).same_structure(*old(pipeline)),
        r matches Err(e) ==> e matches FlowError::FilterInit { .. },
{
    let ghost oldp = *old(pipeline);
    let ghost ord = oldp.order@;
    let nlen = pipeline.nodes.len();
    let mut cur: Option<usize> = pipeline.head;
    let ghost k: int = 0;
    loop
        invariant
            oldp == *old(pipeline),
            pipeline.wf(),
            pipeline.same_structure(oldp),
            ord == pipeline.order@,
            pipeline.nodes@.len() == nlen as int,
            0 <= k <= ord.len(),
            cur == (if k < ord.len() {
                Some(ord[k] as usize)
            } else {
                None::<usize>
            }),
        decreases ord.len() - k,
    {
        match cur {
            None => {
                return Ok(());
            }
            Some(i) => {
                let ghost snap = *pipeline;
                let step: Result<Option<usize>, FlowError> = match &mut pipeline.nodes[i] {
                    Some(n) => {
                        let res = n.filter.init(&n.name, &mut pipeline.attributes);
                        let nx = n.next;
                        match res {
                            Ok(()) => Ok(nx),
                            Err(detail) => Err(
                                FlowError::FilterInit { stage: n.name.clone(), detail },
                            ),
                        }
                    }
                    None => {
                        proof {
                            assert(false);
                        }
                        Ok(None)
                    }
                };
                proof {
                    lemma_stage_update_preserves_shape(snap, *pipeline, k);
                }
                match step {
                    Ok(nx) => {
                        proof {
                            assert(pipeline.node_at(k).next == next_link(ord, k));
                        }
                        cur = nx;
                        proof {
                            k = k + 1;
                        }
                    }
                    Err(e) => {
                        return Err(e);
                    }
                }
            }
        }
    }
}

/// Tears the chain down: every stage's teardown hook runs in chain
/// order, then the chain is emptied, leaving head and tail absent.
pub fn pipeline_uninit<F: FrameFilter>(pipeline: &mut FramePipeline<F>)
    requires
        old(pipeline).wf(),
    ensures
        final(pipeline).wf(),
        final(pipeline).names().len() == 0,
        final(pipeline).head is None,
        final(pipeline).tail is None,
        final(pipeline).same_identity(*old(pipeline)),
{
    let ghost oldp = *old(pipeline);
    let ghost ord = oldp.order@;
    let nlen = pipeline.nodes.len();
    let mut cur: Option<usize> = pipeline.head;
    let ghost k: int = 0;
    loop
        invariant
            oldp == *old(pipeline),
            pipeline.wf(),
            pipeline.same_structure(oldp),
            ord == pipeline.order@,
            pipeline.nodes@.len() == nlen as int,
            0 <= k <= ord.len(),
            cur == (if k < ord.len() {
                Some(ord[k] as usize)
            } else {
                None::<usize>
            }),
        decreases ord.len() - k,
    {
        match cur {
            None => {
                break;
            }
            Some(i) => {
                let ghost snap = *pipeline;
                let nx: Option<usize> = match &mut pipeline.nodes[i] {
                    Some(n) => {
                        n.filter.uninit(&n.name, &mut pipeline.attributes);
                        n.next
                    }
                    None => {
                        proof {
                            assert(false);
                        }
                        None
                    }
                };
                proof {
                    lemma_stage_update_preserves_shape(snap, *pipeline, k);
                    assert(pipeline.node_at(k).next == next_link(ord, k));
                }
                cur = nx;
                proof {
                    k = k + 1;
                }
            }
        }
    }
    pipeline.nodes.clear();
    pipeline.head = None;
    pipeline.tail = None;
    proof {
        pipeline.order@ = Seq::empty();
        assert(pipeline.names() =~= Seq::<Seq<char>>::empty());
    }
}

/// One chain worker's main loop.
///
/// Each iteration checks the shared run-status first — pausing blocks
/// cooperatively, ending exits at once — then tries a bounded-wait
/// receive while the upstream still lives, pushes anything received
/// through the chain, and finally walks the chain draining each stage's
/// pull hook.  A vanished upstream is ordinary completion of the source,
/// never an error: the worker keeps draining, and exits with success
/// once a whole drain pass yields nothing more, closing its own
/// downstream channels in turn.  That exit is this graph's completion
/// rule: end of stream travels by closing channels, not by an in-band
/// end-of-stream unit, so a worker whose upstream is gone and whose
/// stages are pull-driven and drained can produce nothing further —
/// a stage that would yield again later without new input is outside
/// this model.  Once every destination is gone the worker also exits
/// with success; a failed hook exits with that stage's error.
///
/// `poll_budget` bounds how many times the loop polls (at a short
/// timeout per poll) and `drain_limit` bounds how many units one stage
/// may drain in a row; both are far beyond any realistic run, and a
/// worker whose budget somehow ran dry behaves as if it were cancelled.
pub fn run_pipeline<F: FrameFilter>(
    pipeline: &mut FramePipeline<F>,
    receiver: &crossbeam_channel::Receiver<Envelope>,
    senders: &mut Vec<crossbeam_channel::Sender<Envelope>>,
    fg_input_index: usize,
    pool: &mut BufferPool,
    control: &SchedulerControl,
    poll_budget: u64,
    drain_limit: u64,
) -> (r: Result<(), FlowError>)
    requires
        old(pipeline).wf(),
    ensures
        final(pipeline).wf(),
        final(pipeline).same_structure(*old(pipeline)),
        final(senders)@.len() <= old(senders)@.len(),
        r matches Err(e) ==> e.is_stage_error(),
{
    let ghost oldp = *old(pipeline);
    let ghost ord = oldp.order@;
    let nlen = pipeline.nodes.len();
    let mut budget = poll_budget;
    let mut src_finished = false;
    loop
        invariant
            oldp == *old(pipeline),
            pipeline.wf(),
            pipeline.same_structure(oldp),
            ord == pipeline.order@,
            pipeline.nodes@.len() == nlen as int,
            senders@.len() <= old(senders)@.len(),
        decreases budget,
    {
        if budget == 0 {
            return Ok(());
        }
        budget = budget - 1;

        let status = control.wait_until_not_paused(budget);
        if status == RunStatus::Ending {
            return Ok(());
        }

        if !src_finished {
            match channel_recv_timeout(receiver, 1) {
                RecvOutcome::Closed => {
                    src_finished = true;
                    continue;
                }
                RecvOutcome::TimedOut => {}
                RecvOutcome::Got(env) => {
                    let start = pipeline.head;
                    proof {
                        if ord.len() > 0 {
                            assert(ord[0] == ord[0]);
                        }
                    }
                    match run_filter_frame(
                        pipeline,
                        env.frame,
                        start,
                        senders,
                        fg_input_index,
                        pool,
                    ) {
                        Ok(()) => {}
                        Err(e) => {
                            return Err(e);
                        }
                    }
                    if senders.len() == 0 {
                        return Ok(());
                    }
                }
            }
        } else {
            pause_briefly(1);
        }

        let mut produced_any = false;
        let mut cur: Option<usize> = pipeline.head;
        let ghost k: int = 0;
        loop
            invariant
                oldp == *old(pipeline),
                pipeline.wf(),
                pipeline.same_structure(oldp),
                ord == pipeline.order@,
                pipeline.nodes@.len() == nlen as int,
                senders@.len() <= old(senders)@.len(),
                0 <= k <= ord.len(),
                cur == (if k < ord.len() {
                    Some(ord[k] as usize)
                } else {
                    None::<usize>
                }),
            decreases ord.len() - k,
        {
            match cur {
                None => {
                    break;
                }
                Some(i) => {
                    let mut remaining = drain_limit;
                    loop
                        invariant
                            oldp == *old(pipeline),
                            pipeline.wf(),
                            pipeline.same_structure(oldp),
                            ord == pipeline.order@,
                            pipeline.nodes@.len() == nlen as int,
                            senders@.len() <= old(senders)@.len(),
                            0 <= k < ord.len(),
                            i as int == ord[k],
                        decreases remaining,
                    {
                        if remaining == 0 {
                            break;
                        }
                        remaining = remaining - 1;
                        let step = do_request_frame(pipeline, i);
                        match step {
                            Err(e) => {
                                return Err(e);
                            }
                            Ok((nx, out)) => {
                                proof {
                                    assert(pipeline.node_at(k).next == next_link(ord, k));
                                }
                                match out {
                                    None => {
                                        break;
                                    }
                                    Some(p) => {
                                        produced_any = true;
                                        match run_filter_frame(
                                            pipeline,
                                            p,
                                            nx,
                                            senders,
                                            fg_input_index,
                                            pool,
                                        ) {
                                            Ok(()) => {}
                                            Err(e) => {
                                                return Err(e);
                                            }
                                        }
                                        if senders.len() == 0 {
                                            return Ok(());
                                        }
                                    }
                                }
                            }
                        }
                    }
                    let nx: Option<usize> = match &node_slot(pipeline, i) {
                        Some(n) => n.next,
                        None => {
                            proof {
                                assert(false);
                            }
                            None
                        }
                    };
                    proof {
                        assert(pipeline.node_at(k).next == next_link(ord, k));
                    }
                    cur = nx;
                    proof {
                        k = k + 1;
                    }
                }
            }
        }

        if senders.len() == 0 {
            return Ok(());
        }
        if src_finished && !produced_any {
            return Ok(());
        }
    }
}

/// Reads one arena slot: the chain walk's way to follow a `next` link.
fn node_slot<F: FrameFilter>(pipeline: &FramePipeline<F>, i: usize) -> (r: &Option<
    crate::chain::FrameFilterContext<F>,
>)
    requires
        i < pipeline.nodes@.len(),
    ensures
        *r == pipeline.nodes@[i as int],
{
    &pipeline.nodes[i]
}

} // verus!
