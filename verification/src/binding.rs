use vstd::prelude::*;
use crate::builder::FramePipelineBuilder;
use crate::chain::FrameFilter;
use crate::channel::channel_bounded;
use crate::envelope::Envelope;
use crate::error::FlowError;
use crate::graph::CHANNEL_CAPACITY;
use crate::media::MediaKind;
use crate::stream::{DecoderStream, EncoderStream};

verus! {

/// The first position satisfying `pred`, scanning left to right.
pub open spec fn find_first<T>(s: Seq<T>, pred: spec_fn(T) -> bool) -> Option<int>
    decreases s.len(),
{
    if s.len() == 0 {
        None
    } else if pred(s[0]) {
        Some(0int)
    } else {
        match find_first(s.drop_first(), pred) {
            Some(i) => Some(i + 1),
            None => None,
        }
    }
}

/// `find_first` finds exactly the first satisfying position, and
/// nothing when no position satisfies.
pub proof fn lemma_find_first_characterization<T>(s: Seq<T>, pred: spec_fn(T) -> bool)
    ensures
        match find_first(s, pred) {
            Some(i) => 0 <= i < s.len() && pred(s[i]) && (forall|j: int|
                0 <= j < i ==> !pred(s[j])),
            None => forall|j: int| 0 <= j < s.len() ==> !pred(s[j]),
        },
    decreases s.len(),
{
    if s.len() > 0 && !pred(s[0]) {
        let rest = s.drop_first();
        lemma_find_first_characterization(rest, pred);
        match find_first(rest, pred) {
            Some(i) => {
                assert(s[i + 1] == rest[i]);
                assert forall|j: int| 0 <= j < i + 1 implies !pred(s[j]) by {
                    if j > 0 {
                        assert(s[j] == rest[j - 1]);
                    }
                }
            }
            None => {
                assert forall|j: int| 0 <= j < s.len() implies !pred(s[j]) by {
                    if j > 0 {
                        assert(s[j] == rest[j - 1]);
                    }
                }
            }
        }
    }
}

/// Any position that is a first satisfying one is the one `find_first`
/// returns.
pub proof fn lemma_find_first_at<T>(s: Seq<T>, pred: spec_fn(T) -> bool, i: int)
    requires
        0 <= i < s.len(),
        pred(s[i]),
        forall|j: int| 0 <= j < i ==> !pred(s[j]),
    ensures
        find_first(s, pred) == Some(i),
    decreases s.len(),
{
    if i > 0 {
        let rest = s.drop_first();
        assert forall|j: int| 0 <= j < i - 1 implies !pred(rest[j]) by {
            assert(rest[j] == s[j + 1]);
        }
        assert(rest[i - 1] == s[i]);
        lemma_find_first_at(rest, pred, i - 1);
    }
}

/// The first source stream with this index.
pub open spec fn dec_index_pos(s: Seq<DecoderStream>, si: usize) -> Option<int> {
    find_first(s, |d: DecoderStream| d.stream_index == si)
}

/// The first source stream carrying this link label.
pub open spec fn dec_label_pos(s: Seq<DecoderStream>, target: Seq<char>) -> Option<int>
    decreases s.len(),
{
    if s.len() == 0 {
        None
    } else if s[0].linklabel is Some && s[0].linklabel->Some_0@ == target {
        Some(0int)
    } else {
        match dec_label_pos(s.drop_first(), target) {
            Some(i) => Some(i + 1),
            None => None,
        }
    }
}

/// Whether a stream carries this link label.
pub open spec fn has_label(l: Option<String>, target: Seq<char>) -> bool {
    l is Some && l->Some_0@ == target
}

/// `dec_label_pos` finds exactly the first labelled position.
pub proof fn lemma_dec_label_pos_characterization(s: Seq<DecoderStream>, target: Seq<char>)
    ensures
        match dec_label_pos(s, target) {
            Some(i) => 0 <= i < s.len() && has_label(s[i].linklabel, target) && (forall|j: int|
                0 <= j < i ==> !has_label(s[j].linklabel, target)),
            None => forall|j: int| 0 <= j < s.len() ==> !has_label(s[j].linklabel, target),
        },
    decreases s.len(),
{
    if s.len() > 0 && !has_label(s[0].linklabel, target) {
        let rest = s.drop_first();
        lemma_dec_label_pos_characterization(rest, target);
        match dec_label_pos(rest, target) {
            Some(i) => {
                assert(s[i + 1] == rest[i]);
                assert forall|j: int| 0 <= j < i + 1 implies !has_label(s[j].linklabel, target) by {
                    if j > 0 {
                        assert(s[j] == rest[j - 1]);
                    }
                }
            }
            None => {
                assert forall|j: int| 0 <= j < s.len() implies !has_label(
                    s[j].linklabel,
                    target,
                ) by {
                    if j > 0 {
                        assert(s[j] == rest[j - 1]);
                    }
                }
            }
        }
    }
}

/// Any first labelled position is the one `dec_label_pos` returns.
pub proof fn lemma_dec_label_pos_at(s: Seq<DecoderStream>, target: Seq<char>, i: int)
    requires
        0 <= i < s.len(),
        has_label(s[i].linklabel, target),
        forall|j: int| 0 <= j < i ==> !has_label(s[j].linklabel, target),
    ensures
        dec_label_pos(s, target) == Some(i),
    decreases s.len(),
{
    if i > 0 {
        let rest = s.drop_first();
        assert forall|j: int| 0 <= j < i - 1 implies !has_label(rest[j].linklabel, target) by {
            assert(rest[j] == s[j + 1]);
        }
        assert(rest[i - 1] == s[i]);
        lemma_dec_label_pos_at(rest, target, i - 1);
    }
}

/// The first source stream of this media kind.
pub open spec fn dec_kind_pos(s: Seq<DecoderStream>, kind: MediaKind) -> Option<int> {
    find_first(s, |d: DecoderStream| d.codec_type == kind)
}

/// The first sink stream with this index.
pub open spec fn enc_index_pos(s: Seq<EncoderStream>, si: usize) -> Option<int> {
    find_first(s, |d: EncoderStream| d.stream_index == si)
}

/// The first sink stream carrying this link label.
pub open spec fn enc_label_pos(s: Seq<EncoderStream>, target: Seq<char>) -> Option<int>
    decreases s.len(),
{
    if s.len() == 0 {
        None
    } else if s[0].linklabel is Some && s[0].linklabel->Some_0@ == target {
        Some(0int)
    } else {
        match enc_label_pos(s.drop_first(), target) {
            Some(i) => Some(i + 1),
            None => None,
        }
    }
}

/// `enc_label_pos` finds exactly the first labelled position.
pub proof fn lemma_enc_label_pos_characterization(s: Seq<EncoderStream>, target: Seq<char>)
    ensures
        match enc_label_pos(s, target) {
            Some(i) => 0 <= i < s.len() && has_label(s[i].linklabel, target) && (forall|j: int|
                0 <= j < i ==> !has_label(s[j].linklabel, target)),
            None => forall|j: int| 0 <= j < s.len() ==> !has_label(s[j].linklabel, target),
        },
    decreases s.len(),
{
    if s.len() > 0 && !has_label(s[0].linklabel, target) {
        let rest = s.drop_first();
        lemma_enc_label_pos_characterization(rest, target);
        match enc_label_pos(rest, target) {
            Some(i) => {
                assert(s[i + 1] == rest[i]);
                assert forall|j: int| 0 <= j < i + 1 implies !has_label(s[j].linklabel, target) by {
                    if j > 0 {
                        assert(s[j] == rest[j - 1]);
                    }
                }
            }
            None => {
                assert forall|j: int| 0 <= j < s.len() implies !has_label(
                    s[j].linklabel,
                    target,
                ) by {
                    if j > 0 {
                        assert(s[j] == rest[j - 1]);
                    }
                }
            }
        }
    }
}

/// Any first labelled position is the one `enc_label_pos` returns.
pub proof fn lemma_enc_label_pos_at(s: Seq<EncoderStream>, target: Seq<char>, i: int)
    requires
        0 <= i < s.len(),
        has_label(s[i].linklabel, target),
        forall|j: int| 0 <= j < i ==> !has_label(s[j].linklabel, target),
    ensures
        enc_label_pos(s, target) == Some(i),
    decreases s.len(),
{
    if i > 0 {
        let rest = s.drop_first();
        assert forall|j: int| 0 <= j < i - 1 implies !has_label(rest[j].linklabel, target) by {
            assert(rest[j] == s[j + 1]);
        }
        assert(rest[i - 1] == s[i]);
        lemma_enc_label_pos_at(rest, target, i - 1);
    }
}

/// The first sink stream of this media kind.
pub open spec fn enc_kind_pos(s: Seq<EncoderStream>, kind: MediaKind) -> Option<int> {
    find_first(s, |d: EncoderStream| d.codec_type == kind)
}

/// Which stream a chain binds to: an explicit index wins, then an
/// explicit label, then the first stream of the chain's media kind.
pub open spec fn spec_resolve_decoder(
    s: Seq<DecoderStream>,
    index: Option<usize>,
    label: Option<String>,
    kind: MediaKind,
) -> Option<int> {
    match index {
        Some(si) => dec_index_pos(s, si),
        None => match label {
            Some(l) => dec_label_pos(s, l@),
            None => dec_kind_pos(s, kind),
        },
    }
}

/// Which sink stream a chain binds to, by the same resolution order.
pub open spec fn spec_resolve_encoder(
    s: Seq<EncoderStream>,
    index: Option<usize>,
    label: Option<String>,
    kind: MediaKind,
) -> Option<int> {
    match index {
        Some(si) => enc_index_pos(s, si),
        None => match label {
            Some(l) => enc_label_pos(s, l@),
            None => enc_kind_pos(s, kind),
        },
    }
}

/// The binding error owed when resolution finds nothing, named after
/// what was requested: an index, a label, or only a kind.
pub open spec fn spec_binding_error(
    e: FlowError,
    index: Option<usize>,
    label: Option<String>,
    kind: MediaKind,
) -> bool {
    match index {
        Some(si) => e matches FlowError::StreamIndexNotFound { stream_index, media_type }
            && stream_index == si && media_type == kind,
        None => match label {
            Some(l) => e matches FlowError::LinkLabelNotFound { linklabel } && linklabel@ == l@,
            None => e matches FlowError::KindNotFound { media_type } && media_type == kind,
        },
    }
}

fn dec_find_index(streams: &Vec<DecoderStream>, si: usize) -> (r: Option<usize>)
    ensures
        match r {
            Some(p) => p < streams@.len() && dec_index_pos(streams@, si) == Some(p as int),
            None => dec_index_pos(streams@, si) is None,
        },
{
    let ghost pred = |d: DecoderStream| d.stream_index == si;
    let n = streams.len();
    let mut i: usize = 0;
    while i < n
        invariant
            n == streams@.len(),
            i <= n,
            pred == (|d: DecoderStream| d.stream_index == si),
            forall|j: int| 0 <= j < i ==> !pred(streams@[j]),
        decreases n - i,
    {
        if streams[i].stream_index == si {
            proof {
                lemma_find_first_at(streams@, pred, i as int);
            }
            return Some(i);
        }
        i = i + 1;
    }
    proof {
        lemma_find_first_characterization(streams@, pred);
    }
    None
}

fn dec_find_label(streams: &Vec<DecoderStream>, label: &String) -> (r: Option<usize>)
    ensures
        match r {
            Some(p) => p < streams@.len() && dec_label_pos(streams@, label@) == Some(p as int),
            None => dec_label_pos(streams@, label@) is None,
        },
{
    let ghost target = label@;
    let n = streams.len();
    let mut i: usize = 0;
    while i < n
        invariant
            n == streams@.len(),
            target == label@,
            i <= n,
            forall|j: int| 0 <= j < i ==> !has_label(#[trigger] streams@[j].linklabel, target),
        decreases n - i,
    {
        let matched = match &streams[i].linklabel {
            Some(l) => *l == *label,
            None => false,
        };
        if matched {
            proof {
                lemma_dec_label_pos_at(streams@, target, i as int);
            }
            return Some(i);
        }
        i = i + 1;
    }
    proof {
        lemma_dec_label_pos_characterization(streams@, target);
    }
    None
}

fn dec_find_kind(streams: &Vec<DecoderStream>, kind: MediaKind) -> (r: Option<usize>)
    ensures
        match r {
            Some(p) => p < streams@.len() && dec_kind_pos(streams@, kind) == Some(p as int),
            None => dec_kind_pos(streams@, kind) is None,
        },
{
    let ghost pred = |d: DecoderStream| d.codec_type == kind;
    let n = streams.len();
    let mut i: usize = 0;
    while i < n
        invariant
            n == streams@.len(),
            i <= n,
            pred == (|d: DecoderStream| d.codec_type == kind),
            forall|j: int| 0 <= j < i ==> !pred(streams@[j]),
        decreases n - i,
    {
        if streams[i].codec_type == kind {
            proof {
                lemma_find_first_at(streams@, pred, i as int);
            }
            return Some(i);
        }
        i = i + 1;
    }
    proof {
        lemma_find_first_characterization(streams@, pred);
    }
    None
}

fn clone_opt_string(s: &Option<String>) -> (r: Option<String>)
    ensures
        r == *s,
{
    match s {
        Some(v) => Some(v.clone()),
        None => None,
    }
}

/// Binds one input-side chain to a source stream.
///
/// Resolution order: the chain's explicit stream index, else its
/// explicit link label, else the first stream of its media kind; each
/// failure is its own error and nothing is changed.  On a match, a
/// fresh bounded channel is spliced in: the stream's whole destination
/// set is replaced by the channel's sender and handed back, together
/// with the channel's receiver, so the chain now stands transparently
/// between the stream and its original consumers.
pub fn match_decoder_stream<F: FrameFilter>(
    pipeline_builder: &FramePipelineBuilder<F>,
    decoder_streams: &mut Vec<DecoderStream>,
) -> (r: Result<
    (
        usize,
        Option<String>,
        crossbeam_channel::Receiver<Envelope>,
        Vec<crossbeam_channel::Sender<Envelope>>,
        usize,
    ),
    FlowError,
>)
    ensures
        match spec_resolve_decoder(
            old(decoder_streams)@,
            pipeline_builder.stream_index,
            pipeline_builder.linklabel,
            pipeline_builder.media_type,
        ) {
            Some(p) => {
                &&& r matches Ok((idx, label, _receiver, senders, fg)) && {
                    let chosen = old(decoder_streams)@[p];
                    &&& idx == chosen.stream_index
                    &&& label == chosen.linklabel
                    &&& senders@ == chosen.dsts@
                    &&& fg == chosen.fg_input_index
                }
                &&& final(decoder_streams)@.len() == old(decoder_streams)@.len()
                &&& forall|j: int|
                    0 <= j < old(decoder_streams)@.len() && j != p ==> final(decoder_streams)@[j]
                        == old(decoder_streams)@[j]
                &&& final(decoder_streams)@[p] == (DecoderStream {
                    dsts: final(decoder_streams)@[p].dsts,
                    ..old(decoder_streams)@[p]
                })
                &&& final(decoder_streams)@[p].dsts@.len() == 1
            },
            None => {
                &&& r matches Err(e) && spec_binding_error(
                    e,
                    pipeline_builder.stream_index,
                    pipeline_builder.linklabel,
                    pipeline_builder.media_type,
                )
                &&& final(decoder_streams)@ == old(decoder_streams)@
            },
        },
{
    let pos: Option<usize> = match pipeline_builder.stream_index {
        Some(si) => match dec_find_index(decoder_streams, si) {
            Some(p) => Some(p),
            None => {
                return Err(
                    FlowError::StreamIndexNotFound {
                        stream_index: si,
                        media_type: pipeline_builder.media_type,
                    },
                );
            }
        },
        None => match &pipeline_builder.linklabel {
            Some(l) => match dec_find_label(decoder_streams, l) {
                Some(p) => Some(p),
                None => {
                    return Err(FlowError::LinkLabelNotFound { linklabel: l.clone() });
                }
            },
            None => match dec_find_kind(decoder_streams, pipeline_builder.media_type) {
                Some(p) => Some(p),
                None => {
                    return Err(
                        FlowError::KindNotFound { media_type: pipeline_builder.media_type },
                    );
                }
            },
        },
    };
    match pos {
        Some(p) => {
            let (sender, receiver) = channel_bounded(CHANNEL_CAPACITY);
            let stream = &mut decoder_streams[p];
            let old_dsts = stream.replace_dsts(sender);
            let idx = stream.stream_index;
            let label = clone_opt_string(&stream.linklabel);
            let fg = stream.fg_input_index;
            Ok((idx, label, receiver, old_dsts, fg))
        }
        None => {
            proof {
                assert(false);
            }
            Err(FlowError::DecoderMissing)
        }
    }
}

fn enc_find_index(streams: &Vec<EncoderStream>, si: usize) -> (r: Option<usize>)
    ensures
        match r {
            Some(p) => p < streams@.len() && enc_index_pos(streams@, si) == Some(p as int),
            None => enc_index_pos(streams@, si) is None,
        },
{
    let ghost pred = |d: EncoderStream| d.stream_index == si;
    let n = streams.len();
    let mut i: usize = 0;
    while i < n
        invariant
            n == streams@.len(),
            i <= n,
            pred == (|d: EncoderStream| d.stream_index == si),
            forall|j: int| 0 <= j < i ==> !pred(streams@[j]),
        decreases n - i,
    {
        if streams[i].stream_index == si {
            proof {
                lemma_find_first_at(streams@, pred, i as int);
            }
            return Some(i);
        }
        i = i + 1;
    }
    proof {
        lemma_find_first_characterization(streams@, pred);
    }
    None
}

fn enc_find_label(streams: &Vec<EncoderStream>, label: &String) -> (r: Option<usize>)
    ensures
        match r {
            Some(p) => p < streams@.len() && enc_label_pos(streams@, label@) == Some(p as int),
            None => enc_label_pos(streams@, label@) is None,
        },
{
    let ghost target = label@;
    let n = streams.len();
    let mut i: usize = 0;
    while i < n
        invariant
            n == streams@.len(),
            target == label@,
            i <= n,
            forall|j: int| 0 <= j < i ==> !has_label(#[trigger] streams@[j].linklabel, target),
        decreases n - i,
    {
        let matched = match &streams[i].linklabel {
            Some(l) => *l == *label,
            None => false,
        };
        if matched {
            proof {
                lemma_enc_label_pos_at(streams@, target, i as int);
            }
            return Some(i);
        }
        i = i + 1;
    }
    proof {
        lemma_enc_label_pos_characterization(streams@, target);
    }
    None
}

fn enc_find_kind(streams: &Vec<EncoderStream>, kind: MediaKind) -> (r: Option<usize>)
    ensures
        match r {
            Some(p) => p < streams@.len() && enc_kind_pos(streams@, kind) == Some(p as int),
            None => enc_kind_pos(streams@, kind) is None,
        },
{
    let ghost pred = |d: EncoderStream| d.codec_type == kind;
    let n = streams.len();
    let mut i: usize = 0;
    while i < n
        invariant
            n == streams@.len(),
            i <= n,
            pred == (|d: EncoderStream| d.codec_type == kind),
            forall|j: int| 0 <= j < i ==> !pred(streams@[j]),
        decreases n - i,
    {
        if streams[i].codec_type == kind {
            proof {
                lemma_find_first_at(streams@, pred, i as int);
            }
            return Some(i);
        }
        i = i + 1;
    }
    proof {
        lemma_find_first_characterization(streams@, pred);
    }
    None
}

/// Binds one output-side chain to a sink stream, by the same
/// resolution order as the input side.  On a match, a fresh bounded
/// channel is spliced in front of the encoder: the chain takes over the
/// channel that used to feed the encoder, and the encoder now reads
/// from the new channel whose sender the chain sends into.
pub fn match_encoder_stream<F: FrameFilter>(
    pipeline_builder: &FramePipelineBuilder<F>,
    encoder_streams: &mut Vec<EncoderStream>,
) -> (r: Result<
    (
        usize,
        Option<String>,
        crossbeam_channel::Receiver<Envelope>,
        crossbeam_channel::Sender<Envelope>,
    ),
    FlowError,
>)
    ensures
        match spec_resolve_encoder(
            old(encoder_streams)@,
            pipeline_builder.stream_index,
            pipeline_builder.linklabel,
            pipeline_builder.media_type,
        ) {
            Some(p) => {
                &&& r matches Ok((idx, label, receiver, _sender)) && {
                    let chosen = old(encoder_streams)@[p];
                    &&& idx == chosen.stream_index
                    &&& label == chosen.linklabel
                    &&& receiver == chosen.src
                }
                &&& final(encoder_streams)@.len() == old(encoder_streams)@.len()
                &&& forall|j: int|
                    0 <= j < old(encoder_streams)@.len() && j != p ==> final(encoder_streams)@[j]
                        == old(encoder_streams)@[j]
                &&& final(encoder_streams)@[p] == (EncoderStream {
                    src: final(encoder_streams)@[p].src,
                    ..old(encoder_streams)@[p]
                })
            },
            None => {
                &&& r matches Err(e) && spec_binding_error(
                    e,
                    pipeline_builder.stream_index,
                    pipeline_builder.linklabel,
                    pipeline_builder.media_type,
                )
                &&& final(encoder_streams)@ == old(encoder_streams)@
            },
        },
{
    let pos: Option<usize> = match pipeline_builder.stream_index {
        Some(si) => match enc_find_index(encoder_streams, si) {
            Some(p) => Some(p),
            None => {
                return Err(
                    FlowError::StreamIndexNotFound {
                        stream_index: si,
                        media_type: pipeline_builder.media_type,
                    },
                );
            }
        },
        None => match &pipeline_builder.linklabel {
            Some(l) => match enc_find_label(encoder_streams, l) {
                Some(p) => Some(p),
                None => {
                    return Err(FlowError::LinkLabelNotFound { linklabel: l.clone() });
                }
            },
            None => match enc_find_kind(encoder_streams, pipeline_builder.media_type) {
                Some(p) => Some(p),
                None => {
                    return Err(
                        FlowError::KindNotFound { media_type: pipeline_builder.media_type },
                    );
                }
            },
        },
    };
    match pos {
        Some(p) => {
            let (sender, receiver) = channel_bounded(CHANNEL_CAPACITY);
            let stream = &mut encoder_streams[p];
            let old_src = stream.replace_src(receiver);
            let idx = stream.stream_index;
            let label = clone_opt_string(&stream.linklabel);
            Ok((idx, label, old_src, sender))
        }
        None => {
            proof {
                assert(false);
            }
            Err(FlowError::DecoderMissing)
        }
    }
}

} // verus!
