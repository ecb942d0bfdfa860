use vstd::prelude::*;
use crate::chain::{FrameFilter, FramePipeline};
use crate::media::MediaKind;

verus! {

/// Collects a chain's configuration — its media kind, an optional
/// explicit stream index or link label, and the stages in order — before
/// any stream binding is known.
///
/// The chain itself is built later, by the worker thread that will own
/// it, once the scheduler has resolved which stream the chain binds to.
pub struct FramePipelineBuilder<F> {
    pub stream_index: Option<usize>,
    pub linklabel: Option<String>,
    pub media_type: MediaKind,
    pub filters: Vec<(String, F)>,
}

impl<F: FrameFilter> FramePipelineBuilder<F> {
    /// Every collected stage matches the builder's media kind.
    pub open spec fn wf(self) -> bool {
        forall|j: int|
            0 <= j < self.filters@.len() ==> (#[trigger] self.filters@[j]).1.kind_spec()
                == self.media_type
    }

    /// A builder for a chain of the given media kind, with no stages and
    /// no explicit binding yet.
    pub fn new(media_type: MediaKind) -> (r: Self)
        ensures
            r.wf(),
            r.stream_index is None,
            r.linklabel is None,
            r.media_type == media_type,
            r.filters@.len() == 0,
    {
        FramePipelineBuilder { stream_index: None, linklabel: None, media_type, filters: Vec::new() }
    }

    /// Requests binding by link label.
    pub fn set_linklabel(self, linklabel: String) -> (r: Self)
        ensures
            r == (FramePipelineBuilder { linklabel: Some(linklabel), ..self }),
    {
        FramePipelineBuilder { linklabel: Some(linklabel), ..self }
    }

    /// Requests binding by explicit stream index.
    pub fn set_stream_index(self, stream_index: usize) -> (r: Self)
        ensures
            r == (FramePipelineBuilder { stream_index: Some(stream_index), ..self }),
    {
        FramePipelineBuilder { stream_index: Some(stream_index), ..self }
    }

    /// Appends a stage, to run after every stage added so far.
    pub fn filter(self, name: &str, filter: F) -> (r: Self)
        requires
            self.wf(),
            filter.kind_spec() == self.media_type,
        ensures
            r.wf(),
            r.stream_index == self.stream_index,
            r.linklabel == self.linklabel,
            r.media_type == self.media_type,
            r.filters@.len() == self.filters@.len() + 1,
            forall|j: int| 0 <= j < self.filters@.len() ==> r.filters@[j] == self.filters@[j],
            r.filters@[self.filters@.len() as int].0@ == name@,
            r.filters@[self.filters@.len() as int].1 == filter,
    {
        let mut this = self;
        this.filters.push((name.to_owned(), filter));
        this
    }

    /// Builds the chain for the stream the scheduler resolved, appending
    /// the collected stages in order.  Run by the worker thread that
    /// owns the chain, immediately before it starts pumping units.
    pub fn build(self, stream_index: usize, linklabel: Option<String>) -> (p: FramePipeline<F>)
        requires
            self.wf(),
        ensures
            p.wf(),
            p.stream_index == stream_index,
            p.linklabel == linklabel,
            p.media_type == self.media_type,
            p.names().len() == self.filters@.len(),
            forall|j: int|
                0 <= j < self.filters@.len() ==> p.names()[j] == (#[trigger] self.filters@[j]).0@,
            forall|j: int|
                0 <= j < self.filters@.len() ==> p.filters()[j] == (#[trigger] self.filters@[j]).1,
    {
        let ghost all = self.filters@;
        let mut p = FramePipeline::new(stream_index, linklabel, self.media_type);
        let mut rest = self.filters;
        let ghost done: int = 0;
        while rest.len() > 0
            invariant
                all == self.filters@,
                p.wf(),
                p.stream_index == stream_index,
                p.linklabel == linklabel,
                p.media_type == self.media_type,
                0 <= done <= all.len(),
                rest@ == all.subrange(done, all.len() as int),
                forall|j: int|
                    0 <= j < all.len() ==> (#[trigger] all[j]).1.kind_spec() == self.media_type,
                p.names().len() == done,
                forall|j: int| 0 <= j < done ==> p.names()[j] == (#[trigger] all[j]).0@,
                forall|j: int| 0 <= j < done ==> p.filters()[j] == (#[trigger] all[j]).1,
            decreases all.len() - done,
        {
            let (name, f) = rest.remove(0);
            proof {
                assert((name, f) == all[done]);
                assert(rest@ =~= all.subrange(done + 1, all.len() as int));
            }
            p.add_last(name.as_str(), f);
            proof {
                done = done + 1;
            }
        }
        proof {
            assert(done == all.len());
        }
        p
    }
}

} // verus!
