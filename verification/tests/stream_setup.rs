use frameflow::builder::FramePipelineBuilder;
use frameflow::chain::NoopFilter;
use frameflow::demux::Demuxer;
use frameflow::envelope::Rational;
use frameflow::error::FlowError;
use frameflow::media::{default_linklabel, get_codec_name, MediaKind};
use frameflow::stream::{
    choose_decoder, find_hwaccel, init_streams, normalized_hwaccel_name, CodecInfo, CodecLookups,
    DemuxOptions, HwAccelId, PixelFormatChoice, StreamEntry,
};

fn codec(kind: MediaKind, name: &str) -> CodecInfo {
    CodecInfo { id: 27, kind, name: String::from(name) }
}

fn no_lookups() -> CodecLookups {
    CodecLookups { by_name: None, by_desc: None, hw_candidate: None, by_id: None }
}

#[test]
fn codec_name_override_follows_kind() {
    let video = Some(String::from("h264"));
    let audio = Some(String::from("aac"));
    let subtitle = None;
    assert_eq!(get_codec_name(MediaKind::Video, &video, &audio, &subtitle).as_deref(), Some("h264"));
    assert_eq!(get_codec_name(MediaKind::Audio, &video, &audio, &subtitle).as_deref(), Some("aac"));
    assert_eq!(get_codec_name(MediaKind::Subtitle, &video, &audio, &subtitle), None);
    assert_eq!(get_codec_name(MediaKind::Other, &video, &audio, &subtitle), None);
}

#[test]
fn default_linklabels_follow_index_and_kind() {
    assert_eq!(default_linklabel(0, MediaKind::Video).as_deref(), Some("0:v"));
    assert_eq!(default_linklabel(1, MediaKind::Audio).as_deref(), Some("1:a"));
    assert_eq!(default_linklabel(27, MediaKind::Subtitle).as_deref(), Some("27:s"));
    assert_eq!(default_linklabel(305, MediaKind::Video).as_deref(), Some("305:v"));
    assert_eq!(default_linklabel(3, MediaKind::Other), None);
}

#[test]
fn nvdec_aliases_normalize_to_cuda() {
    assert_eq!(normalized_hwaccel_name(&String::from("nvdec")), "cuda");
    assert_eq!(normalized_hwaccel_name(&String::from("cuvid")), "cuda");
    assert_eq!(normalized_hwaccel_name(&String::from("vaapi")), "vaapi");
}

#[test]
fn non_video_streams_never_accelerate() {
    let c = find_hwaccel(
        MediaKind::Audio,
        Some(String::from("cuda")),
        Some(String::from("0")),
        None,
        None,
        Some(2),
    )
    .expect("audio resolves without acceleration");
    assert_eq!(c.id, HwAccelId::NoAccel);
    assert_eq!(c.device_type, None);
    assert_eq!(c.device, None);
    assert_eq!(c.output_format, PixelFormatChoice::Unset);
}

#[test]
fn cuvid_defaults_its_output_format() {
    let c = find_hwaccel(
        MediaKind::Video,
        Some(String::from("cuvid")),
        None,
        None,
        None,
        Some(2),
    )
    .expect("cuvid is a known accelerator");
    assert_eq!(c.id, HwAccelId::Generic);
    assert_eq!(c.device_type, Some(2));
    assert_eq!(c.output_format, PixelFormatChoice::Cuda);
}

#[test]
fn explicit_output_format_uses_the_lookup() {
    let c = find_hwaccel(
        MediaKind::Video,
        Some(String::from("auto")),
        None,
        Some(String::from("nv12")),
        Some(23),
        None,
    )
    .expect("auto always resolves");
    assert_eq!(c.id, HwAccelId::Auto);
    assert_eq!(c.output_format, PixelFormatChoice::Resolved(23));
}

#[test]
fn unknown_accelerator_is_an_error() {
    match find_hwaccel(
        MediaKind::Video,
        Some(String::from("warpdrive")),
        None,
        None,
        None,
        None,
    ) {
        Err(FlowError::UnrecognizedHwAccel { name }) => assert_eq!(name, "warpdrive"),
        other => panic!("expected an unrecognized-accelerator error, got {:?}", other.map(|_| ())),
    }
}

#[test]
fn named_decoder_must_match_the_stream_kind() {
    let lookups = CodecLookups {
        by_name: Some(codec(MediaKind::Audio, "aac")),
        ..no_lookups()
    };
    match choose_decoder(
        Some(String::from("aac")),
        MediaKind::Video,
        HwAccelId::NoAccel,
        None,
        lookups,
    ) {
        Err(FlowError::InvalidDecoderType { name }) => assert_eq!(name, "aac"),
        other => panic!("expected an invalid-type error, got {:?}", other.map(|_| ())),
    }
}

#[test]
fn named_decoder_falls_back_to_the_descriptor() {
    let lookups = CodecLookups {
        by_desc: Some(codec(MediaKind::Video, "libopenh264")),
        ..no_lookups()
    };
    let chosen = choose_decoder(
        Some(String::from("h264")),
        MediaKind::Video,
        HwAccelId::NoAccel,
        None,
        lookups,
    )
    .expect("descriptor lookup succeeds")
    .expect("a decoder was chosen");
    assert_eq!(chosen.name, "libopenh264");
}

#[test]
fn unknown_named_decoder_is_an_error() {
    match choose_decoder(
        Some(String::from("nosuch")),
        MediaKind::Video,
        HwAccelId::NoAccel,
        None,
        no_lookups(),
    ) {
        Err(FlowError::DecoderNotFound { name }) => assert_eq!(name, "nosuch"),
        other => panic!("expected a not-found error, got {:?}", other.map(|_| ())),
    }
}

#[test]
fn generic_acceleration_prefers_the_device_decoder() {
    let lookups = CodecLookups {
        hw_candidate: Some(codec(MediaKind::Video, "h264_cuvid")),
        by_id: Some(codec(MediaKind::Video, "h264")),
        ..no_lookups()
    };
    let chosen = choose_decoder(None, MediaKind::Video, HwAccelId::Generic, Some(2), lookups)
        .expect("selection succeeds")
        .expect("a decoder was chosen");
    assert_eq!(chosen.name, "h264_cuvid");
}

#[test]
fn plain_selection_uses_the_id_lookup() {
    let lookups = CodecLookups { by_id: Some(codec(MediaKind::Video, "h264")), ..no_lookups() };
    let chosen = choose_decoder(None, MediaKind::Video, HwAccelId::NoAccel, None, lookups)
        .expect("selection succeeds")
        .expect("a decoder was chosen");
    assert_eq!(chosen.name, "h264");
    let none = choose_decoder(None, MediaKind::Video, HwAccelId::NoAccel, None, no_lookups())
        .expect("selection succeeds");
    assert!(none.is_none());
}

fn entry(kind: MediaKind, label: Option<&str>) -> StreamEntry {
    StreamEntry {
        codec_type: kind,
        codec_id: 27,
        duration: 1000,
        time_base: Rational { num: 1, den: 90000 },
        avg_framerate: Rational { num: 25, den: 1 },
        linklabel: label.map(String::from),
        lookups: CodecLookups { by_id: Some(codec(kind, "any")), ..no_lookups() },
    }
}

fn plain_options() -> DemuxOptions {
    DemuxOptions {
        video_codec: None,
        audio_codec: None,
        subtitle_codec: None,
        hwaccel: None,
        hwaccel_device: None,
        hwaccel_output_format: None,
        pix_fmt_lookup: None,
        device_type_lookup: None,
    }
}

#[test]
fn init_streams_builds_one_stream_per_entry() {
    let entries = vec![entry(MediaKind::Video, Some("0:v")), entry(MediaKind::Audio, Some("0:a"))];
    let streams = init_streams(entries, &plain_options()).expect("all entries resolve");
    assert_eq!(streams.len(), 2);
    assert_eq!(streams[0].stream_index, 0);
    assert_eq!(streams[0].codec_type, MediaKind::Video);
    assert_eq!(streams[0].linklabel.as_deref(), Some("0:v"));
    assert_eq!(streams[1].stream_index, 1);
    assert_eq!(streams[1].codec_type, MediaKind::Audio);
    assert!(streams[0].src.is_none());
    assert!(streams[0].dsts.is_empty());
}

#[test]
fn init_streams_surfaces_the_first_failing_stream() {
    // the audio entry resolves; the video entry fails on the unknown
    // accelerator, and exactly that error comes back
    let entries = vec![entry(MediaKind::Audio, None), entry(MediaKind::Video, None)];
    let mut opts = plain_options();
    opts.hwaccel = Some(String::from("warpdrive"));
    match init_streams(entries, &opts) {
        Err(FlowError::UnrecognizedHwAccel { name }) => assert_eq!(name, "warpdrive"),
        other => panic!("expected the accelerator error, got {:?}", other.map(|_| ())),
    }
}

#[test]
fn demuxer_refuses_an_input_with_an_undecodable_stream() {
    let mut bad = entry(MediaKind::Video, None);
    bad.lookups = no_lookups();
    let entries = vec![entry(MediaKind::Audio, None), bad];
    let builders: Option<Vec<FramePipelineBuilder<NoopFilter>>> = None;
    let r = Demuxer::new(
        String::from("input.mp4"),
        false,
        0,
        builders,
        None,
        None,
        None,
        None,
        entries,
        &plain_options(),
    );
    assert!(matches!(r, Err(FlowError::DecoderMissing)));
}

#[test]
fn init_streams_fails_without_any_decoder() {
    let mut e = entry(MediaKind::Video, None);
    e.lookups = no_lookups();
    assert!(matches!(init_streams(vec![e], &plain_options()), Err(FlowError::DecoderMissing)));
}

fn demuxer() -> Demuxer<NoopFilter> {
    let entries = vec![entry(MediaKind::Video, Some("0:v"))];
    let builders: Option<Vec<FramePipelineBuilder<NoopFilter>>> = None;
    Demuxer::new(
        String::from("input.mp4"),
        false,
        0,
        builders,
        None,
        None,
        None,
        None,
        entries,
        &plain_options(),
    )
    .expect("the table builds")
}

#[test]
fn connect_stream_twice_is_a_no_op() {
    let mut d = demuxer();
    assert!(d.destination_is_empty());
    assert!(!d.get_stream(0).is_used());
    d.connect_stream(0);
    assert!(d.get_stream(0).is_used());
    assert_eq!(d.get_streams().len(), 1);
    assert!(!d.destination_is_empty());
    let dsts_before = d.take_dsts();
    assert_eq!(dsts_before.len(), 1);
    assert_eq!(dsts_before[0].1, 0);
    assert!(dsts_before[0].2.is_none());
    // connecting again changes nothing: the stream is already in use
    d.connect_stream(0);
    assert!(d.destination_is_empty());
    assert!(d.get_stream(0).is_used());
}
