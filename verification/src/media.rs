use vstd::prelude::*;

verus! {

/// The media kind of one logical stream, and of every stage in a chain
/// attached to that stream.
#[derive(Clone, Copy, Debug, PartialEq, Eq, Structural)]
pub enum MediaKind {
    Video,
    Audio,
    Subtitle,
    Other,
}

/// The codec-name override configured for a media kind, if any:
/// video, audio and subtitle streams each have their own, any other
/// kind has none.
pub open spec fn spec_codec_name(
    codec_type: MediaKind,
    video_codec: Option<String>,
    audio_codec: Option<String>,
    subtitle_codec: Option<String>,
) -> Option<String> {
    match codec_type {
        MediaKind::Video => video_codec,
        MediaKind::Audio => audio_codec,
        MediaKind::Subtitle => subtitle_codec,
        MediaKind::Other => None,
    }
}

/// Picks the codec-name override configured for a media kind, if any.
///
/// Video, audio and subtitle streams each have their own optional override;
/// any other kind has none.
pub fn get_codec_name(
    codec_type: MediaKind,
    video_codec: &Option<String>,
    audio_codec: &Option<String>,
    subtitle_codec: &Option<String>,
) -> (r: Option<String>)
    ensures
        r == spec_codec_name(codec_type, *video_codec, *audio_codec, *subtitle_codec),
        codec_type == MediaKind::Video ==> r == *video_codec,
        codec_type == MediaKind::Audio ==> r == *audio_codec,
        codec_type == MediaKind::Subtitle ==> r == *subtitle_codec,
        codec_type == MediaKind::Other ==> r is None,
{
    if codec_type == MediaKind::Video {
        clone_name(video_codec)
    } else if codec_type == MediaKind::Audio {
        clone_name(audio_codec)
    } else if codec_type == MediaKind::Subtitle {
        clone_name(subtitle_codec)
    } else {
        None
    }
}

fn clone_name(name: &Option<String>) -> (r: Option<String>)
    ensures
        r == *name,
{
    match name {
        Some(s) => Some(s.clone()),
        None => None,
    }
}

/// The character for one decimal digit.
pub open spec fn spec_digit_char(d: nat) -> char {
    if d == 0 {
        '0'
    } else if d == 1 {
        '1'
    } else if d == 2 {
        '2'
    } else if d == 3 {
        '3'
    } else if d == 4 {
        '4'
    } else if d == 5 {
        '5'
    } else if d == 6 {
        '6'
    } else if d == 7 {
        '7'
    } else if d == 8 {
        '8'
    } else {
        '9'
    }
}

/// The decimal rendering of a number, most significant digit first.
pub open spec fn spec_decimal(n: nat) -> Seq<char>
    decreases n,
{
    if n < 10 {
        seq![spec_digit_char(n)]
    } else {
        spec_decimal(n / 10).push(spec_digit_char(n % 10))
    }
}

fn digit_str(d: u64) -> (r: &'static str)
    requires
        d < 10,
    ensures
        r@ == seq![spec_digit_char(d as nat)],
{
    proof {
        reveal_strlit("0");
        reveal_strlit("1");
        reveal_strlit("2");
        reveal_strlit("3");
        reveal_strlit("4");
        reveal_strlit("5");
        reveal_strlit("6");
        reveal_strlit("7");
        reveal_strlit("8");
        reveal_strlit("9");
    }
    if d == 0 {
        "0"
    } else if d == 1 {
        "1"
    } else if d == 2 {
        "2"
    } else if d == 3 {
        "3"
    } else if d == 4 {
        "4"
    } else if d == 5 {
        "5"
    } else if d == 6 {
        "6"
    } else if d == 7 {
        "7"
    } else if d == 8 {
        "8"
    } else {
        "9"
    }
}

fn push_decimal(n: u64, out: &mut String)
    ensures
        final(out)@ == old(out)@ + spec_decimal(n as nat),
    decreases n,
{
    if n >= 10 {
        proof {
            assert(n / 10 < n) by (nonlinear_arith)
                requires
                    n >= 10,
            ;
        }
        push_decimal(n / 10, out);
    }
    let ghost mid = out@;
    out.append(digit_str(n % 10));
    proof {
        if n >= 10 {
            assert(out@ =~= old(out)@ + spec_decimal(n as nat));
        } else {
            assert(out@ =~= old(out)@ + spec_decimal(n as nat));
        }
    }
}

/// The default link label a stream gets from its input's index and its
/// media kind: the index in decimal, a separator, and the kind's
/// letter — video `v`, audio `a`, subtitle `s`.  Other kinds get none.
pub fn default_linklabel(demux_index: usize, kind: MediaKind) -> (r: Option<String>)
    ensures
        kind == MediaKind::Video ==> (r matches Some(l) && l@ == spec_decimal(demux_index as nat)
            + ":v"@),
        kind == MediaKind::Audio ==> (r matches Some(l) && l@ == spec_decimal(demux_index as nat)
            + ":a"@),
        kind == MediaKind::Subtitle ==> (r matches Some(l) && l@ == spec_decimal(
            demux_index as nat,
        ) + ":s"@),
        kind == MediaKind::Other ==> r is None,
{
    let suffix: &str = match kind {
        MediaKind::Video => ":v",
        MediaKind::Audio => ":a",
        MediaKind::Subtitle => ":s",
        MediaKind::Other => {
            return None;
        }
    };
    let mut label = String::new();
    push_decimal(demux_index as u64, &mut label);
    label.append(suffix);
    proof {
        assert(label@ =~= spec_decimal(demux_index as nat) + suffix@);
    }
    Some(label)
}

} // verus!
