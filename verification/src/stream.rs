use vstd::prelude::*;
use crate::envelope::{Envelope, PacketEnvelope, Rational};
use crate::error::FlowError;
use crate::media::{get_codec_name, spec_codec_name, MediaKind};

verus! {

/// How hardware acceleration was requested for a stream.
#[derive(Clone, Copy, Debug, PartialEq, Eq, Structural)]
pub enum HwAccelId {
    NoAccel,
    Auto,
    Generic,
}

/// The pixel format decoded hardware frames should come out in.
/// `Resolved` carries the media library's own format code, handed in by
/// the caller that performed the lookup.
#[derive(Clone, Copy, Debug, PartialEq, Eq, Structural)]
pub enum PixelFormatChoice {
    Unset,
    Cuda,
    Qsv,
    Mediacodec,
    Resolved(i32),
}

/// A stream's resolved hardware-acceleration settings.
pub struct HwAccelConfig {
    pub id: HwAccelId,
    pub device_type: Option<i32>,
    pub device: Option<String>,
    pub output_format: PixelFormatChoice,
}

/// One decoder the media library offers: its id, kind and name, as read
/// from the library by the caller.
pub struct CodecInfo {
    pub id: u32,
    pub kind: MediaKind,
    pub name: String,
}

/// The decoder-lookup results the selection policy decides over: what
/// the media library answered when asked by name, by the named
/// descriptor's id, for a decoder of the stream's id supporting the
/// requested device, and for the stream's id plainly.
pub struct CodecLookups {
    pub by_name: Option<CodecInfo>,
    pub by_desc: Option<CodecInfo>,
    pub hw_candidate: Option<CodecInfo>,
    pub by_id: Option<CodecInfo>,
}

/// The requested accelerator name with the aliases folded away: the
/// NVDEC accelerators use a CUDA device under either name.
pub open spec fn spec_normalized_hwaccel(h: Seq<char>) -> Seq<char> {
    if h == "nvdec"@ || h == "cuvid"@ {
        "cuda"@
    } else {
        h
    }
}

/// True when the string equals the literal.
fn str_is(s: &String, lit: &str) -> (r: bool)
    ensures
        r == (s@ == lit@),
{
    *s == lit.to_owned()
}

/// Folds the NVDEC accelerator aliases to the CUDA device name.
pub fn normalized_hwaccel_name(h: &String) -> (r: String)
    ensures
        r@ == spec_normalized_hwaccel(h@),
{
    if str_is(h, "nvdec") || str_is(h, "cuvid") {
        "cuda".to_owned()
    } else {
        h.clone()
    }
}

/// Resolves the hardware-acceleration settings for one stream.
///
/// Only video streams accelerate; the deprecated `cuvid`/`qsv`/
/// `mediacodec` requests default their output format; an explicitly
/// requested output format uses the caller's lookup of it, and an
/// unrecognized one is ignored.  An accelerator name other than `none`
/// or `auto` must name a device type the library knows —
/// `device_type_lookup` is the caller's lookup of the normalized name —
/// else resolution fails.
pub fn find_hwaccel(
    codec_type: MediaKind,
    hwaccel: Option<String>,
    hwaccel_device: Option<String>,
    hwaccel_output_format: Option<String>,
    pix_fmt_lookup: Option<i32>,
    device_type_lookup: Option<i32>,
) -> (r: Result<HwAccelConfig, FlowError>)
    ensures
        r is Ok <==> spec_hw_resolves(codec_type, hwaccel, device_type_lookup),
        r matches Ok(c) ==> c == spec_hw_config(
            codec_type,
            hwaccel,
            hwaccel_device,
            hwaccel_output_format,
            pix_fmt_lookup,
            device_type_lookup,
        ),
        r matches Err(e) ==> (e matches FlowError::UnrecognizedHwAccel { name }
            && hwaccel matches Some(h) && name@ == spec_normalized_hwaccel(h@)),
{
    if codec_type != MediaKind::Video {
        return Ok(
            HwAccelConfig {
                id: HwAccelId::NoAccel,
                device_type: None,
                device: None,
                output_format: PixelFormatChoice::Unset,
            },
        );
    }
    let out_fmt: PixelFormatChoice = match (&hwaccel, &hwaccel_output_format) {
        (Some(h), None) if str_is(h, "cuvid") => PixelFormatChoice::Cuda,
        (Some(h), None) if str_is(h, "qsv") => PixelFormatChoice::Qsv,
        (Some(h), None) if str_is(h, "mediacodec") => PixelFormatChoice::Mediacodec,
        (_, Some(_)) => match pix_fmt_lookup {
            Some(v) => PixelFormatChoice::Resolved(v),
            None => PixelFormatChoice::Unset,
        },
        _ => PixelFormatChoice::Unset,
    };
    match hwaccel {
        None => Ok(
            HwAccelConfig {
                id: HwAccelId::NoAccel,
                device_type: None,
                device: hwaccel_device,
                output_format: out_fmt,
            },
        ),
        Some(h) => {
            let h2 = normalized_hwaccel_name(&h);
            if str_is(&h2, "none") {
                Ok(
                    HwAccelConfig {
                        id: HwAccelId::NoAccel,
                        device_type: None,
                        device: hwaccel_device,
                        output_format: out_fmt,
                    },
                )
            } else if str_is(&h2, "auto") {
                Ok(
                    HwAccelConfig {
                        id: HwAccelId::Auto,
                        device_type: None,
                        device: hwaccel_device,
                        output_format: out_fmt,
                    },
                )
            } else {
                match device_type_lookup {
                    Some(dt) => Ok(
                        HwAccelConfig {
                            id: HwAccelId::Generic,
                            device_type: Some(dt),
                            device: hwaccel_device,
                            output_format: out_fmt,
                        },
                    ),
                    None => Err(FlowError::UnrecognizedHwAccel { name: h2 }),
                }
            }
        }
    }
}

/// The output format a video stream resolves to, given the acceleration
/// request and the caller's lookup of an explicitly requested format.
pub open spec fn spec_output_format(
    hwaccel: Option<String>,
    hwaccel_output_format: Option<String>,
    pix_fmt_lookup: Option<i32>,
) -> PixelFormatChoice {
    match (hwaccel, hwaccel_output_format) {
        (Some(h), None) => {
            if h@ == "cuvid"@ {
                PixelFormatChoice::Cuda
            } else if h@ == "qsv"@ {
                PixelFormatChoice::Qsv
            } else if h@ == "mediacodec"@ {
                PixelFormatChoice::Mediacodec
            } else {
                PixelFormatChoice::Unset
            }
        },
        (_, Some(_)) => match pix_fmt_lookup {
            Some(v) => PixelFormatChoice::Resolved(v),
            None => PixelFormatChoice::Unset,
        },
        (None, None) => PixelFormatChoice::Unset,
    }
}

/// Whether the acceleration request resolves for a stream of this
/// kind: non-video streams always do, and a video stream fails only
/// when an accelerator other than `none` or `auto` was requested and
/// its normalized name named no device type the library knows.
pub open spec fn spec_hw_resolves(
    codec_type: MediaKind,
    hwaccel: Option<String>,
    device_type_lookup: Option<i32>,
) -> bool {
    codec_type != MediaKind::Video || match hwaccel {
        None => true,
        Some(h) => {
            let h2 = spec_normalized_hwaccel(h@);
            h2 == "none"@ || h2 == "auto"@ || device_type_lookup is Some
        },
    }
}

/// The settings an acceleration request resolves to, when it resolves.
pub open spec fn spec_hw_config(
    codec_type: MediaKind,
    hwaccel: Option<String>,
    hwaccel_device: Option<String>,
    hwaccel_output_format: Option<String>,
    pix_fmt_lookup: Option<i32>,
    device_type_lookup: Option<i32>,
) -> HwAccelConfig {
    if codec_type != MediaKind::Video {
        HwAccelConfig {
            id: HwAccelId::NoAccel,
            device_type: None,
            device: None,
            output_format: PixelFormatChoice::Unset,
        }
    } else {
        let fmt = spec_output_format(hwaccel, hwaccel_output_format, pix_fmt_lookup);
        match hwaccel {
            None => HwAccelConfig {
                id: HwAccelId::NoAccel,
                device_type: None,
                device: hwaccel_device,
                output_format: fmt,
            },
            Some(h) => {
                let h2 = spec_normalized_hwaccel(h@);
                if h2 == "none"@ {
                    HwAccelConfig {
                        id: HwAccelId::NoAccel,
                        device_type: None,
                        device: hwaccel_device,
                        output_format: fmt,
                    }
                } else if h2 == "auto"@ {
                    HwAccelConfig {
                        id: HwAccelId::Auto,
                        device_type: None,
                        device: hwaccel_device,
                        output_format: fmt,
                    }
                } else {
                    HwAccelConfig {
                        id: HwAccelId::Generic,
                        device_type: device_type_lookup,
                        device: hwaccel_device,
                        output_format: fmt,
                    }
                }
            },
        }
    }
}

/// The decoder the selection policy settles on: a requested name uses
/// the by-name lookup, falling back to the named descriptor's; with no
/// name, a video stream under generic acceleration prefers the decoder
/// supporting the device, and any stream falls back to the decoder for
/// its id.  `None` means no decoder exists at all.
pub open spec fn spec_decoder_choice(
    codec_name: Option<String>,
    codec_type: MediaKind,
    hwaccel_id: HwAccelId,
    hwaccel_device_type: Option<i32>,
    lookups: CodecLookups,
) -> Option<CodecInfo> {
    match codec_name {
        Some(_) => if lookups.by_name is Some {
            lookups.by_name
        } else {
            lookups.by_desc
        },
        None => {
            if codec_type == MediaKind::Video && hwaccel_id == HwAccelId::Generic
                && hwaccel_device_type is Some && lookups.hw_candidate is Some {
                lookups.hw_candidate
            } else {
                lookups.by_id
            }
        },
    }
}

/// Whether the selection succeeds: a requested name must name a
/// decoder, and that decoder must be of the stream's kind; with no
/// name requested the selection never fails (an absent decoder is an
/// absent choice, not an error).
pub open spec fn spec_decoder_ok(
    codec_name: Option<String>,
    codec_type: MediaKind,
    hwaccel_id: HwAccelId,
    hwaccel_device_type: Option<i32>,
    lookups: CodecLookups,
) -> bool {
    match codec_name {
        Some(_) => spec_decoder_choice(
            codec_name,
            codec_type,
            hwaccel_id,
            hwaccel_device_type,
            lookups,
        ) matches Some(c) && c.kind == codec_type,
        None => true,
    }
}

/// Picks the decoder for one stream.
///
/// A requested name must resolve — directly, or through the named
/// descriptor's id — to a decoder of the stream's kind; otherwise the
/// stream cannot be opened.  With no name requested, a video stream
/// under generic acceleration prefers a decoder supporting the device,
/// and any stream falls back to the library's decoder for its id; no
/// decoder at all is reported as an absent choice, not an error here.
pub fn choose_decoder(
    codec_name: Option<String>,
    codec_type: MediaKind,
    hwaccel_id: HwAccelId,
    hwaccel_device_type: Option<i32>,
    lookups: CodecLookups,
) -> (r: Result<Option<CodecInfo>, FlowError>)
    ensures
        r is Ok <==> spec_decoder_ok(codec_name, codec_type, hwaccel_id, hwaccel_device_type, lookups),
        r matches Ok(c) ==> c == spec_decoder_choice(
            codec_name,
            codec_type,
            hwaccel_id,
            hwaccel_device_type,
            lookups,
        ),
        r matches Err(e) ==> codec_name matches Some(n) && match spec_decoder_choice(
            codec_name,
            codec_type,
            hwaccel_id,
            hwaccel_device_type,
            lookups,
        ) {
            None => e matches FlowError::DecoderNotFound { name } && name@ == n@,
            Some(c) => c.kind != codec_type && (e matches FlowError::InvalidDecoderType { name }
                && name@ == n@),
        },
{
    match codec_name {
        Some(n) => {
            let chosen = if lookups.by_name.is_some() {
                lookups.by_name
            } else {
                lookups.by_desc
            };
            match chosen {
                None => Err(FlowError::DecoderNotFound { name: n }),
                Some(c) => {
                    if c.kind != codec_type {
                        Err(FlowError::InvalidDecoderType { name: n })
                    } else {
                        Ok(Some(c))
                    }
                }
            }
        }
        None => {
            if codec_type == MediaKind::Video && hwaccel_id == HwAccelId::Generic
                && hwaccel_device_type.is_some() && lookups.hw_candidate.is_some() {
                Ok(lookups.hw_candidate)
            } else {
                Ok(lookups.by_id)
            }
        }
    }
}

/// One source-side stream: a logical media stream of the opened input,
/// the decoder chosen for it, and the channel endpoints that connect it
/// into the graph.  `src` feeds it coded units; `dsts` receive its
/// decoded units.  The stream is in use exactly when `src` is populated.
pub struct DecoderStream {
    pub stream_index: usize,
    pub linklabel: Option<String>,
    pub codec_type: MediaKind,
    pub codec_id: u32,
    pub codec: CodecInfo,
    pub duration: i64,
    pub time_base: Rational,
    pub avg_framerate: Rational,
    pub have_sub2video: bool,
    pub hw: HwAccelConfig,
    pub fg_input_index: usize,
    pub src: Option<crossbeam_channel::Receiver<PacketEnvelope>>,
    pub dsts: Vec<crossbeam_channel::Sender<Envelope>>,
}

impl DecoderStream {
    /// A fresh stream: not yet connected, no destinations.
    pub fn new(
        stream_index: usize,
        linklabel: Option<String>,
        codec_type: MediaKind,
        codec_id: u32,
        codec: CodecInfo,
        duration: i64,
        time_base: Rational,
        avg_framerate: Rational,
        hw: HwAccelConfig,
    ) -> (r: DecoderStream)
        ensures
            r.stream_index == stream_index,
            r.linklabel == linklabel,
            r.codec_type == codec_type,
            r.codec_id == codec_id,
            r.codec == codec,
            r.duration == duration,
            r.time_base == time_base,
            r.avg_framerate == avg_framerate,
            !r.have_sub2video,
            r.hw == hw,
            r.fg_input_index == 0,
            r.src is None,
            r.dsts@.len() == 0,
    {
        DecoderStream {
            stream_index,
            linklabel,
            codec_type,
            codec_id,
            codec,
            duration,
            time_base,
            avg_framerate,
            have_sub2video: false,
            hw,
            fg_input_index: 0,
            src: None,
            dsts: Vec::new(),
        }
    }

    /// A stream is in use exactly when its inbound channel is populated.
    pub fn is_used(&self) -> (r: bool)
        ensures
            r == (self.src is Some),
    {
        self.src.is_some()
    }

    /// Populates the inbound channel.
    pub fn set_src(&mut self, src: crossbeam_channel::Receiver<PacketEnvelope>)
        ensures
            *final(self) == (DecoderStream { src: Some(src), ..*old(self) }),
    {
        self.src = Some(src);
    }

    /// Adds one more destination for this stream's decoded units.
    pub fn add_dst(&mut self, frame_dst: crossbeam_channel::Sender<Envelope>)
        ensures
            *final(self) == (DecoderStream { dsts: final(self).dsts, ..*old(self) }),
            final(self).dsts@ == old(self).dsts@.push(frame_dst),
    {
        self.dsts.push(frame_dst);
    }

    /// Takes the inbound channel out, leaving the stream unused.
    pub fn take_src(&mut self) -> (r: Option<crossbeam_channel::Receiver<PacketEnvelope>>)
        ensures
            *final(self) == (DecoderStream { src: None, ..*old(self) }),
            r == old(self).src,
    {
        self.src.take()
    }

    /// Takes every destination out.
    pub fn take_dsts(&mut self) -> (r: Vec<crossbeam_channel::Sender<Envelope>>)
        ensures
            *final(self) == (DecoderStream { dsts: final(self).dsts, ..*old(self) }),
            final(self).dsts@.len() == 0,
            r@ == old(self).dsts@,
    {
        let mut out: Vec<crossbeam_channel::Sender<Envelope>> = Vec::new();
        core::mem::swap(&mut out, &mut self.dsts);
        out
    }

    /// Swaps the whole destination set for the single new destination,
    /// handing the old set back: how a chain splices itself between the
    /// stream and its original consumers.
    pub fn replace_dsts(&mut self, new_dsts: crossbeam_channel::Sender<Envelope>) -> (r: Vec<
        crossbeam_channel::Sender<Envelope>,
    >)
        ensures
            *final(self) == (DecoderStream { dsts: final(self).dsts, ..*old(self) }),
            final(self).dsts@.len() == 1,
            final(self).dsts@[0] == new_dsts,
            r@ == old(self).dsts@,
    {
        let mut out: Vec<crossbeam_channel::Sender<Envelope>> = Vec::new();
        out.push(new_dsts);
        core::mem::swap(&mut out, &mut self.dsts);
        out
    }
}

/// One sink-side stream: a logical stream of the opened output and the
/// inbound channel its encoder reads decoded units from.
pub struct EncoderStream {
    pub stream_index: usize,
    pub linklabel: Option<String>,
    pub codec_type: MediaKind,
    pub src: crossbeam_channel::Receiver<Envelope>,
}

impl EncoderStream {
    pub fn new(
        stream_index: usize,
        linklabel: Option<String>,
        codec_type: MediaKind,
        src: crossbeam_channel::Receiver<Envelope>,
    ) -> (r: EncoderStream)
        ensures
            r.stream_index == stream_index,
            r.linklabel == linklabel,
            r.codec_type == codec_type,
            r.src == src,
    {
        EncoderStream { stream_index, linklabel, codec_type, src }
    }

    /// Swaps the inbound channel for a new one, handing the old one
    /// back: how a chain splices itself in front of the encoder.
    pub fn replace_src(&mut self, new_src: crossbeam_channel::Receiver<Envelope>) -> (r:
        crossbeam_channel::Receiver<Envelope>)
        ensures
            *final(self) == (EncoderStream { src: new_src, ..*old(self) }),
            r == old(self).src,
    {
        let mut out = new_src;
        core::mem::swap(&mut out, &mut self.src);
        out
    }
}

/// The per-stream facts an opened input reports, together with the
/// decoder lookups already performed for that stream.
pub struct StreamEntry {
    pub codec_type: MediaKind,
    pub codec_id: u32,
    pub duration: i64,
    pub time_base: Rational,
    pub avg_framerate: Rational,
    pub linklabel: Option<String>,
    pub lookups: CodecLookups,
}

/// The input-wide options stream setup decides over, including the two
/// acceleration lookups already performed by the caller.
pub struct DemuxOptions {
    pub video_codec: Option<String>,
    pub audio_codec: Option<String>,
    pub subtitle_codec: Option<String>,
    pub hwaccel: Option<String>,
    pub hwaccel_device: Option<String>,
    pub hwaccel_output_format: Option<String>,
    pub pix_fmt_lookup: Option<i32>,
    pub device_type_lookup: Option<i32>,
}

/// The acceleration settings one entry resolves to, over the
/// input-wide options.
pub open spec fn spec_entry_hw(entry: StreamEntry, opts: DemuxOptions) -> HwAccelConfig {
    spec_hw_config(
        entry.codec_type,
        opts.hwaccel,
        opts.hwaccel_device,
        opts.hwaccel_output_format,
        opts.pix_fmt_lookup,
        opts.device_type_lookup,
    )
}

/// The decoder one entry resolves to, over the input-wide options.
pub open spec fn spec_entry_codec(entry: StreamEntry, opts: DemuxOptions) -> Option<CodecInfo> {
    let hw = spec_entry_hw(entry, opts);
    spec_decoder_choice(
        spec_codec_name(entry.codec_type, opts.video_codec, opts.audio_codec, opts.subtitle_codec),
        entry.codec_type,
        hw.id,
        hw.device_type,
        entry.lookups,
    )
}

/// Whether one entry's acceleration request and decoder choice both
/// resolve: the condition under which the entry yields a stream.
pub open spec fn spec_entry_resolves(entry: StreamEntry, opts: DemuxOptions) -> bool {
    let hw = spec_entry_hw(entry, opts);
    let requested = spec_codec_name(
        entry.codec_type,
        opts.video_codec,
        opts.audio_codec,
        opts.subtitle_codec,
    );
    &&& spec_hw_resolves(entry.codec_type, opts.hwaccel, opts.device_type_lookup)
    &&& spec_decoder_ok(requested, entry.codec_type, hw.id, hw.device_type, entry.lookups)
    &&& spec_entry_codec(entry, opts) is Some
}

/// The error owed for an entry that does not resolve: the unrecognized
/// accelerator, a named decoder that is missing or of the wrong kind,
/// or — with everything else in order — no decoder for the stream.
pub open spec fn spec_entry_error(e: FlowError, entry: StreamEntry, opts: DemuxOptions) -> bool {
    let hw = spec_entry_hw(entry, opts);
    let requested = spec_codec_name(
        entry.codec_type,
        opts.video_codec,
        opts.audio_codec,
        opts.subtitle_codec,
    );
    if !spec_hw_resolves(entry.codec_type, opts.hwaccel, opts.device_type_lookup) {
        e matches FlowError::UnrecognizedHwAccel { name } && opts.hwaccel matches Some(h)
            && name@ == spec_normalized_hwaccel(h@)
    } else if !spec_decoder_ok(requested, entry.codec_type, hw.id, hw.device_type, entry.lookups) {
        match spec_entry_codec(entry, opts) {
            None => e matches FlowError::DecoderNotFound { name } && requested matches Some(n)
                && name@ == n@,
            Some(_) => e matches FlowError::InvalidDecoderType { name } && requested matches Some(
                n,
            ) && name@ == n@,
        }
    } else {
        e == FlowError::DecoderMissing
    }
}

/// The position of the first entry that does not resolve, scanning in
/// table order.
pub open spec fn first_unresolved(entries: Seq<StreamEntry>, opts: DemuxOptions) -> Option<int>
    decreases entries.len(),
{
    if entries.len() == 0 {
        None
    } else if !spec_entry_resolves(entries[0], opts) {
        Some(0int)
    } else {
        match first_unresolved(entries.drop_first(), opts) {
            Some(i) => Some(i + 1),
            None => None,
        }
    }
}

/// `first_unresolved` finds exactly the first entry that fails, and
/// nothing when every entry resolves.
pub proof fn lemma_first_unresolved_characterization(entries: Seq<StreamEntry>, opts: DemuxOptions)
    ensures
        match first_unresolved(entries, opts) {
            Some(i) => 0 <= i < entries.len() && !spec_entry_resolves(entries[i], opts) && (forall|
                j: int,
            | 0 <= j < i ==> spec_entry_resolves(entries[j], opts)),
            None => forall|j: int| 0 <= j < entries.len() ==> spec_entry_resolves(entries[j], opts),
        },
    decreases entries.len(),
{
    if entries.len() > 0 && spec_entry_resolves(entries[0], opts) {
        let rest = entries.drop_first();
        lemma_first_unresolved_characterization(rest, opts);
        match first_unresolved(rest, opts) {
            Some(i) => {
                assert(entries[i + 1] == rest[i]);
                assert forall|j: int| 0 <= j < i + 1 implies spec_entry_resolves(
                    entries[j],
                    opts,
                ) by {
                    if j > 0 {
                        assert(entries[j] == rest[j - 1]);
                    }
                }
            }
            None => {
                assert forall|j: int| 0 <= j < entries.len() implies spec_entry_resolves(
                    entries[j],
                    opts,
                ) by {
                    if j > 0 {
                        assert(entries[j] == rest[j - 1]);
                    }
                }
            }
        }
    }
}

/// Any position that is a first failing one is the one
/// `first_unresolved` returns.
pub proof fn lemma_first_unresolved_at(entries: Seq<StreamEntry>, opts: DemuxOptions, i: int)
    requires
        0 <= i < entries.len(),
        !spec_entry_resolves(entries[i], opts),
        forall|j: int| 0 <= j < i ==> spec_entry_resolves(entries[j], opts),
    ensures
        first_unresolved(entries, opts) == Some(i),
    decreases entries.len(),
{
    if i > 0 {
        let rest = entries.drop_first();
        assert forall|j: int| 0 <= j < i - 1 implies spec_entry_resolves(rest[j], opts) by {
            assert(rest[j] == entries[j + 1]);
        }
        assert(rest[i - 1] == entries[i]);
        lemma_first_unresolved_at(rest, opts, i - 1);
    }
}

fn clone_opt_string(s: &Option<String>) -> (r: Option<String>)
    ensures
        r == *s,
{
    match s {
        Some(v) => Some(v.clone()),
        None => None,
    }
}

/// Builds the decoder-stream table of one opened input.
///
/// Each entry resolves its acceleration settings and decoder choice in
/// turn; the table builds exactly when every entry resolves, the first
/// failing entry's error aborts the whole table, and a stream for
/// which no decoder exists at all is itself a failure.  On success the
/// table has one stream per entry, indexed by position, carrying the
/// entry's facts and the resolved settings, each unused and without
/// destinations.
pub fn init_streams(entries: Vec<StreamEntry>, opts: &DemuxOptions) -> (r: Result<
    Vec<DecoderStream>,
    FlowError,
>)
    ensures
        r is Ok <==> first_unresolved(entries@, *opts) is None,
        r matches Err(e) ==> first_unresolved(entries@, *opts) matches Some(b)
            && spec_entry_error(e, entries@[b], *opts),
        r matches Ok(streams) ==> {
            &&& streams@.len() == entries@.len()
            &&& forall|j: int|
                0 <= j < streams@.len() ==> {
                    &&& (#[trigger] streams@[j]).stream_index == j
                    &&& streams@[j].codec_type == entries@[j].codec_type
                    &&& streams@[j].codec_id == entries@[j].codec_id
                    &&& streams@[j].linklabel == entries@[j].linklabel
                    &&& streams@[j].duration == entries@[j].duration
                    &&& streams@[j].time_base == entries@[j].time_base
                    &&& streams@[j].avg_framerate == entries@[j].avg_framerate
                    &&& !streams@[j].have_sub2video
                    &&& streams@[j].hw == spec_entry_hw(entries@[j], *opts)
                    &&& Some(streams@[j].codec) == spec_entry_codec(entries@[j], *opts)
                    &&& streams@[j].fg_input_index == 0
                    &&& streams@[j].src is None
                    &&& streams@[j].dsts@.len() == 0
                }
        },
{
    let ghost all = entries@;
    let n = entries.len();
    let mut streams: Vec<DecoderStream> = Vec::new();
    let mut rest = entries;
    let mut i: usize = 0;
    while rest.len() > 0
        invariant
            all == entries@,
            all.len() == n as int,
            i as int + rest@.len() == n as int,
            rest@ == all.subrange(i as int, n as int),
            streams@.len() == i as int,
            forall|j: int| 0 <= j < i as int ==> spec_entry_resolves(#[trigger] all[j], *opts),
            forall|j: int|
                0 <= j < i as int ==> {
                    &&& (#[trigger] streams@[j]).stream_index == j
                    &&& streams@[j].codec_type == all[j].codec_type
                    &&& streams@[j].codec_id == all[j].codec_id
                    &&& streams@[j].linklabel == all[j].linklabel
                    &&& streams@[j].duration == all[j].duration
                    &&& streams@[j].time_base == all[j].time_base
                    &&& streams@[j].avg_framerate == all[j].avg_framerate
                    &&& !streams@[j].have_sub2video
                    &&& streams@[j].hw == spec_entry_hw(all[j], *opts)
                    &&& Some(streams@[j].codec) == spec_entry_codec(all[j], *opts)
                    &&& streams@[j].fg_input_index == 0
                    &&& streams@[j].src is None
                    &&& streams@[j].dsts@.len() == 0
                },
        decreases rest@.len(),
    {
        let entry = rest.remove(0);
        proof {
            assert(entry == all[i as int]);
            assert(rest@ =~= all.subrange(i as int + 1, n as int));
        }
        let hw = match find_hwaccel(
            entry.codec_type,
            clone_opt_string(&opts.hwaccel),
            clone_opt_string(&opts.hwaccel_device),
            clone_opt_string(&opts.hwaccel_output_format),
            opts.pix_fmt_lookup,
            opts.device_type_lookup,
        ) {
            Ok(hw) => hw,
            Err(e) => {
                proof {
                    assert(!spec_entry_resolves(all[i as int], *opts));
                    lemma_first_unresolved_at(all, *opts, i as int);
                }
                return Err(e);
            }
        };
        proof {
            assert(hw == spec_entry_hw(all[i as int], *opts));
        }
        let codec_name = get_codec_name(
            entry.codec_type,
            &opts.video_codec,
            &opts.audio_codec,
            &opts.subtitle_codec,
        );
        let codec = match choose_decoder(
            codec_name,
            entry.codec_type,
            hw.id,
            hw.device_type,
            entry.lookups,
        ) {
            Ok(Some(c)) => c,
            Ok(None) => {
                proof {
                    assert(spec_entry_codec(all[i as int], *opts) is None);
                    assert(!spec_entry_resolves(all[i as int], *opts));
                    lemma_first_unresolved_at(all, *opts, i as int);
                }
                return Err(FlowError::DecoderMissing);
            }
            Err(e) => {
                proof {
                    assert(!spec_entry_resolves(all[i as int], *opts));
                    lemma_first_unresolved_at(all, *opts, i as int);
                }
                return Err(e);
            }
        };
        proof {
            assert(Some(codec) == spec_entry_codec(all[i as int], *opts));
            assert(spec_entry_resolves(all[i as int], *opts));
        }
        let stream = DecoderStream::new(
            i,
            entry.linklabel,
            entry.codec_type,
            entry.codec_id,
            codec,
            entry.duration,
            entry.time_base,
            entry.avg_framerate,
            hw,
        );
        streams.push(stream);
        i = i + 1;
    }
    proof {
        assert(streams@.len() == n as int);
        lemma_first_unresolved_characterization(all, *opts);
        match first_unresolved(all, *opts) {
            Some(b) => {
                assert(spec_entry_resolves(all[b], *opts));
                assert(false);
            }
            None => {}
        }
    }
    Ok(streams)
}

} // verus!
