use frameflow::binding::{match_decoder_stream, match_encoder_stream};
use frameflow::builder::FramePipelineBuilder;
use frameflow::chain::NoopFilter;
use frameflow::channel::channel_bounded;
use frameflow::envelope::{Envelope, Rational};
use frameflow::error::FlowError;
use frameflow::media::MediaKind;
use frameflow::stream::{
    CodecInfo, DecoderStream, EncoderStream, HwAccelConfig, HwAccelId, PixelFormatChoice,
};

fn codec(kind: MediaKind) -> CodecInfo {
    CodecInfo { id: 1, kind, name: String::from("test-codec") }
}

fn no_hw() -> HwAccelConfig {
    HwAccelConfig {
        id: HwAccelId::NoAccel,
        device_type: None,
        device: None,
        output_format: PixelFormatChoice::Unset,
    }
}

fn decoder_stream(index: usize, label: Option<&str>, kind: MediaKind) -> DecoderStream {
    DecoderStream::new(
        index,
        label.map(String::from),
        kind,
        1,
        codec(kind),
        0,
        Rational { num: 1, den: 25 },
        Rational { num: 25, den: 1 },
        no_hw(),
    )
}

fn decoder_streams() -> Vec<DecoderStream> {
    vec![
        decoder_stream(0, None, MediaKind::Video),
        decoder_stream(1, Some("1:a"), MediaKind::Audio),
    ]
}

fn builder(kind: MediaKind) -> FramePipelineBuilder<NoopFilter> {
    FramePipelineBuilder::new(kind).filter("stage", NoopFilter { kind })
}

#[test]
fn explicit_index_binds_that_stream() {
    let mut streams = decoder_streams();
    let b = builder(MediaKind::Audio).set_stream_index(1);
    let (idx, label, _recv, old_dsts, fg) =
        match_decoder_stream(&b, &mut streams).expect("index 1 exists");
    assert_eq!(idx, 1);
    assert_eq!(label.as_deref(), Some("1:a"));
    assert!(old_dsts.is_empty());
    assert_eq!(fg, 0);
    // the chain's sender was spliced in as the stream's sole destination
    assert_eq!(streams[1].dsts.len(), 1);
    assert_eq!(streams[0].dsts.len(), 0);
}

#[test]
fn explicit_label_binds_that_stream() {
    let mut streams = decoder_streams();
    let b = builder(MediaKind::Audio).set_linklabel(String::from("1:a"));
    let (idx, label, _recv, _old, _fg) =
        match_decoder_stream(&b, &mut streams).expect("label 1:a exists");
    assert_eq!(idx, 1);
    assert_eq!(label.as_deref(), Some("1:a"));
}

#[test]
fn bare_kind_binds_first_of_that_kind() {
    let mut streams = decoder_streams();
    let b = builder(MediaKind::Video);
    let (idx, label, _recv, _old, _fg) =
        match_decoder_stream(&b, &mut streams).expect("a video stream exists");
    assert_eq!(idx, 0);
    assert_eq!(label, None);
}

#[test]
fn missing_kind_fails_with_kind_error() {
    let mut streams = decoder_streams();
    let b = builder(MediaKind::Subtitle);
    match match_decoder_stream(&b, &mut streams) {
        Err(FlowError::KindNotFound { media_type }) => {
            assert_eq!(media_type, MediaKind::Subtitle);
        }
        other => panic!("expected a kind-not-found error, got {:?}", other.map(|_| ())),
    }
    assert_eq!(streams[0].dsts.len(), 0);
    assert_eq!(streams[1].dsts.len(), 0);
}

#[test]
fn missing_index_fails_with_index_error() {
    let mut streams = decoder_streams();
    let b = builder(MediaKind::Video).set_stream_index(7);
    match match_decoder_stream(&b, &mut streams) {
        Err(FlowError::StreamIndexNotFound { stream_index, media_type }) => {
            assert_eq!(stream_index, 7);
            assert_eq!(media_type, MediaKind::Video);
        }
        other => panic!("expected an index-not-found error, got {:?}", other.map(|_| ())),
    }
}

#[test]
fn missing_label_fails_with_label_error() {
    let mut streams = decoder_streams();
    let b = builder(MediaKind::Video).set_linklabel(String::from("9:v"));
    match match_decoder_stream(&b, &mut streams) {
        Err(FlowError::LinkLabelNotFound { linklabel }) => {
            assert_eq!(linklabel, "9:v");
        }
        other => panic!("expected a label-not-found error, got {:?}", other.map(|_| ())),
    }
}

#[test]
fn index_wins_over_label_and_kind() {
    let mut streams = decoder_streams();
    // the builder asks for index 0 while also naming the audio label:
    // the explicit index is resolved first
    let b = builder(MediaKind::Video).set_linklabel(String::from("1:a")).set_stream_index(0);
    let (idx, _label, _recv, _old, _fg) =
        match_decoder_stream(&b, &mut streams).expect("index 0 exists");
    assert_eq!(idx, 0);
}

#[test]
fn encoder_binding_splices_in_front_of_the_encoder() {
    let (feed_sender, feed_receiver) = channel_bounded::<Envelope>(8);
    let mut streams = vec![EncoderStream::new(
        0,
        Some(String::from("0:v")),
        MediaKind::Video,
        feed_receiver,
    )];
    let b = builder(MediaKind::Video);
    let (idx, label, taken_receiver, chain_sender) =
        match_encoder_stream(&b, &mut streams).expect("a video sink exists");
    assert_eq!(idx, 0);
    assert_eq!(label.as_deref(), Some("0:v"));
    // the chain took over the channel that used to feed the encoder
    feed_sender
        .send(Envelope {
            frame: frameflow::envelope::Payload { data: vec![1], pts: 0 },
            meta: frameflow::envelope::EnvelopeMeta::bare(0),
        })
        .expect("chain end still open");
    assert_eq!(taken_receiver.try_recv().expect("unit reaches the chain").frame.data, vec![1]);
    // and the encoder now reads what the chain sends
    chain_sender
        .send(Envelope {
            frame: frameflow::envelope::Payload { data: vec![2], pts: 1 },
            meta: frameflow::envelope::EnvelopeMeta::bare(0),
        })
        .expect("encoder end still open");
    assert_eq!(streams[0].src.try_recv().expect("unit reaches the encoder").frame.data, vec![2]);
}

#[test]
fn encoder_missing_kind_fails() {
    let (_s, r) = channel_bounded::<Envelope>(8);
    let mut streams = vec![EncoderStream::new(0, None, MediaKind::Video, r)];
    let b = builder(MediaKind::Audio);
    assert!(matches!(
        match_encoder_stream(&b, &mut streams),
        Err(FlowError::KindNotFound { media_type: MediaKind::Audio })
    ));
}
