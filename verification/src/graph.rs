use vstd::prelude::*;
use std::sync::atomic::{AtomicBool, AtomicUsize, Ordering};
use std::sync::Arc;
use crate::channel::{channel_bounded, channel_sender_clone};
use crate::envelope::Envelope;

verus! {

/// One stage-graph node: the completion and readiness signals one stage
/// shares with the scheduler's bookkeeping, and — for a filter stage
/// with several inputs — the tie-break state that says which input to
/// service next.
///
/// The selector is read and written with plain atomic loads and stores,
/// so the choice is visible and swappable across threads without a
/// lock; the selection policy itself is the surrounding stage logic's
/// concern, not the node's.
pub enum StageNode {
    Source { task_exited: AtomicBool },
    Filter { ready: Vec<AtomicBool>, best_input: AtomicUsize },
    Sink { task_exited: AtomicBool },
}

impl StageNode {
    /// A node for a source stage, not yet exited.
    pub fn new_source() -> (r: StageNode) {
        StageNode::Source { task_exited: AtomicBool::new(false) }
    }

    /// A node for a sink stage, not yet exited.
    pub fn new_sink() -> (r: StageNode) {
        StageNode::Sink { task_exited: AtomicBool::new(false) }
    }

    /// A node for a filter stage with `n_inputs` input slots, none of
    /// them ready, preferring input `0`.
    pub fn new_filter(n_inputs: usize) -> (r: StageNode) {
        let mut ready: Vec<AtomicBool> = Vec::new();
        let mut i: usize = 0;
        while i < n_inputs
            decreases n_inputs - i,
        {
            ready.push(AtomicBool::new(false));
            i = i + 1;
        }
        StageNode::Filter { ready, best_input: AtomicUsize::new(0) }
    }

    /// Publishes which input the stage should pull from next.  Only
    /// meaningful on a filter node; elsewhere it does nothing.
    pub fn set_best_input(&self, input: usize) {
        match self {
            StageNode::Filter { best_input, .. } => {
                best_input.store(input, Ordering::SeqCst);
            }
            _ => {}
        }
    }

    /// The input published as the one to service next; `0` on a node
    /// without a selector.
    pub fn best_input(&self) -> (r: usize) {
        match self {
            StageNode::Filter { best_input, .. } => best_input.load(Ordering::SeqCst),
            _ => 0,
        }
    }

    /// Signals that the input slot has data waiting.  Out-of-range
    /// slots and non-filter nodes are ignored.
    pub fn mark_input_ready(&self, input: usize, is_ready: bool) {
        match self {
            StageNode::Filter { ready, .. } => {
                if input < ready.len() {
                    ready[input].store(is_ready, Ordering::SeqCst);
                }
            }
            _ => {}
        }
    }

    /// Whether the input slot has data waiting; `false` out of range
    /// and on non-filter nodes.
    pub fn input_ready(&self, input: usize) -> (r: bool) {
        match self {
            StageNode::Filter { ready, .. } => {
                if input < ready.len() {
                    ready[input].load(Ordering::SeqCst)
                } else {
                    false
                }
            }
            _ => false,
        }
    }

    /// Signals that the owning worker has exited.
    pub fn mark_exited(&self) {
        match self {
            StageNode::Source { task_exited } => {
                task_exited.store(true, Ordering::SeqCst);
            }
            StageNode::Sink { task_exited } => {
                task_exited.store(true, Ordering::SeqCst);
            }
            _ => {}
        }
    }

    /// Whether the owning worker has exited; `false` on filter nodes,
    /// whose completion travels through their channels.
    pub fn exited(&self) -> (r: bool) {
        match self {
            StageNode::Source { task_exited } => task_exited.load(Ordering::SeqCst),
            StageNode::Sink { task_exited } => task_exited.load(Ordering::SeqCst),
            _ => false,
        }
    }
}

/// The capacity every stage-connecting channel is created with.
pub const CHANNEL_CAPACITY: usize = 8;

/// A filter-graph stage's connection point: the channel pair its input
/// side is fed through, and its shared stage-graph node.
pub struct FilterGraph {
    pub graph_desc: String,
    pub hw_device: Option<String>,
    pub src: Option<(crossbeam_channel::Sender<Envelope>, crossbeam_channel::Receiver<Envelope>)>,
    pub node: Arc<StageNode>,
}

impl FilterGraph {
    /// A graph stage with a fresh bounded input channel.
    pub fn new(graph_desc: String, hw_device: Option<String>) -> (r: FilterGraph)
        ensures
            r.graph_desc@ == graph_desc@,
            r.hw_device == hw_device,
            r.src is Some,
    {
        FilterGraph {
            graph_desc,
            hw_device,
            src: Some(channel_bounded(CHANNEL_CAPACITY)),
            node: Arc::new(StageNode::new_filter(0)),
        }
    }

    /// Takes the receiving end of the input channel, for the worker
    /// that will pump the graph.
    pub fn take_src(&mut self) -> (r: crossbeam_channel::Receiver<Envelope>)
        requires
            old(self).src is Some,
        ensures
            final(self).src is None,
            r == old(self).src->Some_0.1,
    {
        let pair = self.src.take();
        match pair {
            Some((_sender, receiver)) => receiver,
            None => {
                proof {
                    assert(false);
                }
                channel_bounded(CHANNEL_CAPACITY).1
            }
        }
    }

    /// A sender feeding the graph's input channel, recreating the
    /// channel if its ends were already taken.
    pub fn get_src_sender(&mut self) -> (r: crossbeam_channel::Sender<Envelope>)
        ensures
            final(self).src is Some,
            old(self).src is Some ==> final(self).src == old(self).src,
    {
        if self.src.is_none() {
            self.src = Some(channel_bounded(CHANNEL_CAPACITY));
        }
        match &self.src {
            Some((sender, _receiver)) => channel_sender_clone(sender),
            None => {
                proof {
                    assert(false);
                }
                channel_bounded(CHANNEL_CAPACITY).0
            }
        }
    }
}

} // verus!
