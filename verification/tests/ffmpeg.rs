use archeio::error::Error;
use archeio::ffmpeg::{choose_program, encoder_tuning, ffmpeg_args, pick_encoder, spawn_error, version_line};

#[test]
fn program_search_order() {
    assert_eq!(choose_program(Some("C:\\app\\binaries\\ffmpeg.exe".into()), Some("C:\\x\\ffmpeg.exe".into())), "C:\\app\\binaries\\ffmpeg.exe");
    assert_eq!(choose_program(None, Some("C:\\x\\ffmpeg.exe".into())), "C:\\x\\ffmpeg.exe");
    assert_eq!(choose_program(None, None), "ffmpeg");
}

#[test]
fn encoder_preference() {
    let all = b" V....D h264_amf  AMD\n V....D h264_nvenc NVIDIA\n V....D h264_qsv Intel\n".to_vec();
    assert_eq!(pick_encoder(Some(all)), "h264_nvenc");
    assert_eq!(pick_encoder(Some(b"h264_qsv\nh264_amf".to_vec())), "h264_amf");
    assert_eq!(pick_encoder(Some(b"V..... h264_qsv".to_vec())), "h264_qsv");
    assert_eq!(pick_encoder(Some(b"libx264 only".to_vec())), "libx264");
    assert_eq!(pick_encoder(Some(vec![0xff, 0xfe])), "libx264");
    assert_eq!(pick_encoder(None), "libx264");
}

#[test]
fn tuning_per_encoder() {
    assert_eq!(encoder_tuning("h264_nvenc"), vec!["-preset", "p4", "-tune", "ll", "-rc", "cbr"]);
    assert_eq!(encoder_tuning("h264_amf"), vec!["-quality", "speed", "-usage", "transcoding", "-rc", "cbr"]);
    assert_eq!(encoder_tuning("h264_qsv"), vec!["-preset", "veryfast"]);
    assert_eq!(encoder_tuning("libx264"), vec!["-preset", "veryfast", "-tune", "zerolatency"]);
    assert_eq!(encoder_tuning("anything"), vec!["-preset", "veryfast", "-tune", "zerolatency"]);
}

#[test]
fn full_command_line() {
    let args = ffmpeg_args("h264_qsv", "warning", "rtmp://host/live2/key");
    let want: Vec<&str> = vec![
        "-hide_banner", "-loglevel", "warning", "-f", "lavfi", "-i",
        "anullsrc=channel_layout=stereo:sample_rate=44100", "-filter_complex",
        "ddagrab=output_idx=0:framerate=60,hwdownload,format=bgra,scale=1920:1080,format=yuv420p[v]",
        "-map", "[v]", "-map", "0:a", "-c:v", "h264_qsv", "-preset", "veryfast",
        "-b:v", "6000k", "-maxrate", "6000k", "-bufsize", "12000k", "-g", "120",
        "-keyint_min", "120", "-c:a", "aac", "-b:a", "128k", "-ar", "44100", "-f", "flv",
        "rtmp://host/live2/key",
    ];
    assert_eq!(args, want);
}

#[test]
fn version_line_reading() {
    let out = b"ffmpeg version 7.1-full_build Copyright (c) 2000-2024\r\nbuilt with gcc\n";
    assert_eq!(version_line(true, out).unwrap(), "ffmpeg version 7.1-full_build Copyright (c) 2000-2024");
    assert_eq!(version_line(true, b"  padded  ").unwrap(), "padded");
    assert_eq!(version_line(false, out), Err(Error::FfmpegNotFound));
    assert_eq!(version_line(true, b""), Err(Error::FfmpegNotFound));
    assert_eq!(version_line(true, b"   \nsecond"), Err(Error::FfmpegNotFound));
    assert_eq!(version_line(true, &[0xff, b'o', b'k']).unwrap(), "\u{fffd}ok");
}

#[test]
fn spawn_errors() {
    assert_eq!(spawn_error(true, "not found"), Error::FfmpegNotFound);
    assert_eq!(spawn_error(false, "access denied"), Error::FfmpegFailed("access denied".into()));
}
