//! The ffmpeg side of a broadcast: which binary to run, which H.264 encoder to use,
//! the command line that pushes the desktop to YouTube, and reading `-version`.
use vstd::prelude::*;
use vstd::utf8::{decode_utf8, valid_utf8};

use crate::error::Error;
use crate::text::{chars_of, contains, find_char, find_from, has_substring, string_of, trimmed};

verus! {

broadcast use vstd::string::group_string_axioms;

/// The texts of a list of strings.
pub open spec fn texts(v: Seq<String>) -> Seq<Seq<char>> {
    v.map_values(|s: String| s@)
}

/// The texts of a list of string slices.
pub open spec fn str_texts(v: Seq<&str>) -> Seq<Seq<char>> {
    v.map_values(|s: &str| s@)
}

/// Appends a copy of `s`.
pub fn push_text(v: &mut Vec<String>, s: &str)
    ensures
        texts(final(v)@) == texts(old(v)@).push(s@),
{
    let ghost before = v@;
    v.push(s.to_string());
    proof {
        assert(texts(v@) =~= texts(before).push(s@));
    }
}

/// The ffmpeg binary to run: the copy bundled with the app if it exists, else one
/// placed next to the executable, else `ffmpeg` from the PATH. Each candidate is given
/// only when the file exists.
pub fn choose_program(bundled: Option<String>, beside_exe: Option<String>) -> (r: String)
    ensures
        r@ == match bundled {
            Some(p) => p@,
            None => match beside_exe {
                Some(p) => p@,
                None => "ffmpeg"@,
            },
        },
{
    match bundled {
        Some(p) => p,
        None => match beside_exe {
            Some(p) => p,
            None => "ffmpeg".to_string(),
        },
    }
}

/// The text `String::from_utf8_lossy` makes of `bytes`.
pub uninterp spec fn spec_utf8_lossy(bytes: Seq<u8>) -> Seq<char>;

/// Calls `String::from_utf8_lossy`. Claimed, as its documentation says: valid UTF-8 is
/// decoded as it is (invalid sequences become U+FFFD, which is left unstated).
#[verifier::external_body]
fn utf8_lossy(bytes: &[u8]) -> (r: String)
    ensures
        r@ == spec_utf8_lossy(bytes@),
        valid_utf8(bytes@) ==> r@ == decode_utf8(bytes@),
{
    String::from_utf8_lossy(bytes).into_owned()
}

/// The encoder ffmpeg's `-encoders` listing offers, in order of preference: NVIDIA,
/// AMD, Intel, else the x264 software encoder.
pub open spec fn encoder_for(listing: Seq<char>) -> Seq<char> {
    if has_substring(listing, "h264_nvenc"@) {
        "h264_nvenc"@
    } else if has_substring(listing, "h264_amf"@) {
        "h264_amf"@
    } else if has_substring(listing, "h264_qsv"@) {
        "h264_qsv"@
    } else {
        "libx264"@
    }
}

/// The encoder chosen from a listing ranks the hardware encoders NVIDIA, AMD, Intel in
/// that order: a listing that mentions `h264_nvenc` anywhere gets it; one without it
/// that mentions `h264_amf` gets that; one with neither that mentions `h264_qsv` gets
/// that; and only a listing that mentions none of the three falls back to `libx264`.
pub proof fn lemma_hardware_encoders_first(listing: Seq<char>, before: Seq<char>, after: Seq<char>)
    ensures
        encoder_for(before + "h264_nvenc"@ + after) == "h264_nvenc"@,
        !has_substring(before + "h264_amf"@ + after, "h264_nvenc"@) ==> encoder_for(
            before + "h264_amf"@ + after,
        ) == "h264_amf"@,
        !has_substring(before + "h264_qsv"@ + after, "h264_nvenc"@) && !has_substring(
            before + "h264_qsv"@ + after,
            "h264_amf"@,
        ) ==> encoder_for(before + "h264_qsv"@ + after) == "h264_qsv"@,
        encoder_for(listing) == "libx264"@ <==> !has_substring(listing, "h264_nvenc"@)
            && !has_substring(listing, "h264_amf"@) && !has_substring(listing, "h264_qsv"@),
{
    reveal_strlit("h264_nvenc");
    reveal_strlit("h264_amf");
    reveal_strlit("h264_qsv");
    reveal_strlit("libx264");
    let ws = seq!["h264_nvenc"@, "h264_amf"@, "h264_qsv"@];
    assert forall|k: int| 0 <= k < 3 implies has_substring(before + #[trigger] ws[k] + after, ws[k]) by {
        let w = ws[k];
        let h = before + w + after;
        assert(h.subrange(before.len() as int, (before.len() + w.len()) as int) =~= w);
    }
    assert(ws[0] == "h264_nvenc"@);
    assert(ws[1] == "h264_amf"@);
    assert(ws[2] == "h264_qsv"@);
    assert("h264_nvenc"@ != "libx264"@);
    assert("h264_amf"@ != "libx264"@);
    assert("h264_qsv"@ != "libx264"@);
}

/// The encoder to use given the standard output of `ffmpeg -encoders`, or `None` when
/// ffmpeg could not be run (then software x264).
pub fn pick_encoder(listing: Option<Vec<u8>>) -> (r: &'static str)
    ensures
        r@ == match listing {
            Some(out) => encoder_for(spec_utf8_lossy(out@)),
            None => "libx264"@,
        },
{
    match listing {
        None => "libx264",
        Some(out) => {
            let text = utf8_lossy(out.as_slice());
            let cs = chars_of(text.as_str());
            if contains(&cs, "h264_nvenc") {
                "h264_nvenc"
            } else if contains(&cs, "h264_amf") {
                "h264_amf"
            } else if contains(&cs, "h264_qsv") {
                "h264_qsv"
            } else {
                "libx264"
            }
        },
    }
}

/// Encoder-specific tuning flags.
pub open spec fn tuning(encoder: Seq<char>) -> Seq<Seq<char>> {
    if encoder == "h264_nvenc"@ {
        seq!["-preset"@, "p4"@, "-tune"@, "ll"@, "-rc"@, "cbr"@]
    } else if encoder == "h264_amf"@ {
        seq!["-quality"@, "speed"@, "-usage"@, "transcoding"@, "-rc"@, "cbr"@]
    } else if encoder == "h264_qsv"@ {
        seq!["-preset"@, "veryfast"@]
    } else {
        seq!["-preset"@, "veryfast"@, "-tune"@, "zerolatency"@]
    }
}

/// The tuning flags for `encoder`.
pub fn encoder_tuning(encoder: &str) -> (r: Vec<&'static str>)
    ensures
        str_texts(r@) == tuning(encoder@),
{
    let e = encoder.to_string();
    let r = if e == "h264_nvenc".to_string() {
        vec!["-preset", "p4", "-tune", "ll", "-rc", "cbr"]
    } else if e == "h264_amf".to_string() {
        vec!["-quality", "speed", "-usage", "transcoding", "-rc", "cbr"]
    } else if e == "h264_qsv".to_string() {
        vec!["-preset", "veryfast"]
    } else {
        vec!["-preset", "veryfast", "-tune", "zerolatency"]
    };
    proof {
        assert(str_texts(r@) =~= tuning(encoder@));
    }
    r
}

/// The ffmpeg command line: desktop capture scaled to 1080p60 and silent stereo audio,
/// encoded at 6000k video and 128k AAC with two-second keyframes, pushed as FLV to
/// `rtmp_url`.
pub open spec fn ffmpeg_argv(encoder: Seq<char>, log_level: Seq<char>, rtmp_url: Seq<char>) -> Seq<
    Seq<char>,
> {
    seq![
        "-hide_banner"@,
        "-loglevel"@,
        log_level,
        "-f"@,
        "lavfi"@,
        "-i"@,
        "anullsrc=channel_layout=stereo:sample_rate=44100"@,
        "-filter_complex"@,
        "ddagrab=output_idx=0:framerate=60,hwdownload,format=bgra,scale=1920:1080,format=yuv420p[v]"@,
        "-map"@,
        "[v]"@,
        "-map"@,
        "0:a"@,
        "-c:v"@,
        encoder,
    ] + tuning(encoder) + seq![
        "-b:v"@,
        "6000k"@,
        "-maxrate"@,
        "6000k"@,
        "-bufsize"@,
        "12000k"@,
        "-g"@,
        "120"@,
        "-keyint_min"@,
        "120"@,
        "-c:a"@,
        "aac"@,
        "-b:a"@,
        "128k"@,
        "-ar"@,
        "44100"@,
        "-f"@,
        "flv"@,
        rtmp_url,
    ]
}

/// The arguments ffmpeg is started with.
pub fn ffmpeg_args(encoder: &str, log_level: &str, rtmp_url: &str) -> (r: Vec<String>)
    ensures
        texts(r@) == ffmpeg_argv(encoder@, log_level@, rtmp_url@),
{
    let mut a: Vec<String> = Vec::new();
    push_text(&mut a, "-hide_banner");
    push_text(&mut a, "-loglevel");
    push_text(&mut a, log_level);
    push_text(&mut a, "-f");
    push_text(&mut a, "lavfi");
    push_text(&mut a, "-i");
    push_text(&mut a, "anullsrc=channel_layout=stereo:sample_rate=44100");
    push_text(&mut a, "-filter_complex");
    push_text(
        &mut a,
        "ddagrab=output_idx=0:framerate=60,hwdownload,format=bgra,scale=1920:1080,format=yuv420p[v]",
    );
    push_text(&mut a, "-map");
    push_text(&mut a, "[v]");
    push_text(&mut a, "-map");
    push_text(&mut a, "0:a");
    push_text(&mut a, "-c:v");
    push_text(&mut a, encoder);
    let ghost head = texts(a@);
    let tune = encoder_tuning(encoder);
    let mut i: usize = 0;
    while i < tune.len()
        invariant
            i <= tune.len(),
            str_texts(tune@) == tuning(encoder@),
            texts(a@) == head + str_texts(tune@).subrange(0, i as int),
        decreases tune.len() - i,
    {
        push_text(&mut a, tune[i]);
        proof {
            assert(str_texts(tune@).subrange(0, i + 1) =~= str_texts(tune@).subrange(
                0,
                i as int,
            ).push(tune@[i as int]@));
        }
        i = i + 1;
    }
    proof {
        assert(str_texts(tune@).subrange(0, tune@.len() as int) =~= str_texts(tune@));
    }
    let ghost mid = texts(a@);
    push_text(&mut a, "-b:v");
    push_text(&mut a, "6000k");
    push_text(&mut a, "-maxrate");
    push_text(&mut a, "6000k");
    push_text(&mut a, "-bufsize");
    push_text(&mut a, "12000k");
    push_text(&mut a, "-g");
    push_text(&mut a, "120");
    push_text(&mut a, "-keyint_min");
    push_text(&mut a, "120");
    push_text(&mut a, "-c:a");
    push_text(&mut a, "aac");
    push_text(&mut a, "-b:a");
    push_text(&mut a, "128k");
    push_text(&mut a, "-ar");
    push_text(&mut a, "44100");
    push_text(&mut a, "-f");
    push_text(&mut a, "flv");
    push_text(&mut a, rtmp_url);
    proof {
        assert(texts(a@) =~= ffmpeg_argv(encoder@, log_level@, rtmp_url@));
    }
    a
}

/// The first line of `s` (up to its first newline), as `str::lines` gives it.
pub open spec fn first_line(s: Seq<char>) -> Seq<char> {
    let i = find_char(s, '\n');
    if i < 0 {
        s
    } else {
        s.subrange(0, i)
    }
}

/// The version line of `ffmpeg -version`: the first line of its output, trimmed. A
/// failed run or an empty line means ffmpeg is missing.
pub fn version_line(success: bool, stdout: &[u8]) -> (r: Result<String, Error>)
    ensures
        !success ==> r == Err::<String, Error>(Error::FfmpegNotFound),
        success && trimmed(first_line(spec_utf8_lossy(stdout@))).len() == 0 ==> r == Err::<
            String,
            Error,
        >(Error::FfmpegNotFound),
        success && trimmed(first_line(spec_utf8_lossy(stdout@))).len() > 0 ==> (r matches Ok(l)
            && l@ == trimmed(first_line(spec_utf8_lossy(stdout@)))),
{
    if !success {
        return Err(Error::FfmpegNotFound);
    }
    let text = utf8_lossy(stdout);
    let cs = chars_of(text.as_str());
    let end = match find_from(&cs, 0, '\n') {
        Some(e) => e,
        None => cs.len(),
    };
    proof {
        assert(cs@.subrange(0, cs@.len() as int) =~= cs@);
    }
    let first = string_of(&cs, 0, end);
    let line = crate::text::trim(first.as_str());
    if line.as_str().is_empty() {
        Err(Error::FfmpegNotFound)
    } else {
        Ok(line)
    }
}

/// The error for a failed spawn: ffmpeg missing, or its failure text.
pub fn spawn_error(not_found: bool, message: &str) -> (e: Error)
    ensures
        not_found ==> e == Error::FfmpegNotFound,
        !not_found ==> (e matches Error::FfmpegFailed(m) && m@ == message@),
{
    if not_found {
        Error::FfmpegNotFound
    } else {
        Error::FfmpegFailed(message.to_string())
    }
}

} // verus!
