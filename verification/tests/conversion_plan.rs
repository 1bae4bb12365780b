use aura_factory::conversion::{
    answer_report, codec_argument, command_line, ffmpeg_options, output_path, percent_status,
    plan_conversion, start_decision, time_status, ConversionError, ConversionRequest,
    FfmpegReport, ReportAnswer, StartDecision,
};

fn request(input: &str) -> ConversionRequest {
    ConversionRequest {
        input: input.to_string(),
        format: "mkv".to_string(),
        start: String::new(),
        end: String::new(),
        video_resolution: "Source".to_string(),
        video_fps: "Source".to_string(),
        video_bitrate: "Auto".to_string(),
        audio_sample_rate: "Auto".to_string(),
        audio_bitrate: "Auto".to_string(),
        video_codec: "Auto".to_string(),
    }
}

fn strings(v: &[&str]) -> Vec<String> {
    v.iter().map(|s| s.to_string()).collect()
}

#[test]
fn output_path_next_to_input() {
    assert_eq!(output_path("/home/u/a.mp4", "mkv"), Ok("/home/u/a_converted.mkv".to_string()));
    assert_eq!(output_path("movie.avi", "mp4"), Ok("movie_converted.mp4".to_string()));
    assert_eq!(output_path("/tmp/archive.tar.gz", "mp3"), Ok("/tmp/archive.tar_converted.mp3".to_string()));
    assert_eq!(output_path("/tmp/.hidden", "mp4"), Ok("/tmp/.hidden_converted.mp4".to_string()));
}

#[test]
fn plan_without_stem_or_parent_is_none() {
    assert!(plan_conversion(&request("")).is_none());
    assert!(plan_conversion(&request("/")).is_none());
    assert!(plan_conversion(&request("/tmp/..")).is_none());
}

#[test]
fn plan_with_neutral_settings() {
    let plan = plan_conversion(&request("/v/clip.mov")).unwrap().unwrap();
    assert_eq!(plan.output, "/v/clip_converted.mkv");
    assert!(plan.options.is_empty());
    assert_eq!(plan.command_line, "ffmpeg -i \"/v/clip.mov\" -y \"/v/clip_converted.mkv\"");
}

#[test]
fn plan_with_every_setting() {
    let mut r = request("/v/clip.mov");
    r.start = "00:00:05".to_string();
    r.end = "00:01:00".to_string();
    r.video_resolution = "1280x720".to_string();
    r.video_fps = "30".to_string();
    r.video_bitrate = "2M".to_string();
    r.audio_sample_rate = "44100".to_string();
    r.audio_bitrate = "128k".to_string();
    r.video_codec = "h265".to_string();
    let plan = plan_conversion(&r).unwrap().unwrap();
    assert_eq!(
        plan.options,
        strings(&[
            "-ss", "00:00:05", "-to", "00:01:00", "-s", "1280x720", "-r", "30", "-b:v", "2M",
            "-ar", "44100", "-b:a", "128k", "-c:v", "libx265"
        ])
    );
    assert_eq!(
        plan.command_line,
        "ffmpeg -i \"/v/clip.mov\" -ss 00:00:05 -to 00:01:00 -s 1280x720 -r 30 -b:v 2M -ar 44100 -b:a 128k -y \"/v/clip_converted.mkv\""
    );
}

#[test]
fn options_leave_out_neutral_and_empty() {
    let mut r = request("a.mp4");
    r.end = "10".to_string();
    r.video_resolution = String::new();
    r.video_fps = "Auto".to_string();
    r.audio_bitrate = "Source".to_string();
    r.video_codec = String::new();
    assert_eq!(ffmpeg_options(&r), strings(&["-to", "10", "-r", "Auto", "-b:a", "Source"]));
    assert_eq!(
        command_line(&r, "out.mkv"),
        "ffmpeg -i \"a.mp4\" -to 10 -r Auto -b:a Source -y \"out.mkv\""
    );
}

#[test]
fn codec_choices() {
    assert_eq!(codec_argument("h264"), "libx264");
    assert_eq!(codec_argument("h265"), "libx265");
    assert_eq!(codec_argument("copy"), "copy");
    assert_eq!(codec_argument("vp9"), "vp9");
    assert_eq!(codec_argument("H264"), "H264");
    let mut r = request("a.mp4");
    r.video_codec = "h264".to_string();
    assert_eq!(ffmpeg_options(&r), strings(&["-c:v", "libx264"]));
    r.video_codec = "copy".to_string();
    assert_eq!(ffmpeg_options(&r), strings(&["-c:v", "copy"]));
}

#[test]
fn cancellation_comes_first() {
    assert!(matches!(
        answer_report(true, true, FfmpegReport::Log("x".to_string())),
        ReportAnswer::Stop(ConversionError::Cancelled)
    ));
    assert!(matches!(
        answer_report(true, false, FfmpegReport::Other),
        ReportAnswer::Stop(ConversionError::Cancelled)
    ));
}

#[test]
fn reports_are_answered() {
    assert!(matches!(
        answer_report(false, true, FfmpegReport::Log("frame=1".to_string())),
        ReportAnswer::PrintLog(ref m) if m == "frame=1"
    ));
    assert!(matches!(
        answer_report(false, true, FfmpegReport::Progress("00:00:01.00".to_string())),
        ReportAnswer::ShowPercent
    ));
    assert!(matches!(
        answer_report(false, false, FfmpegReport::Progress("00:00:01.00".to_string())),
        ReportAnswer::ShowStatus(ref s) if s == "Converting... (Time: 00:00:01.00)"
    ));
    assert!(matches!(answer_report(false, false, FfmpegReport::Other), ReportAnswer::Ignore));
}

#[test]
fn status_texts() {
    assert_eq!(percent_status(0), "Converting... 0%");
    assert_eq!(percent_status(57), "Converting... 57%");
    assert_eq!(percent_status(100), "Converting... 100%");
    assert_eq!(time_status("00:02:03.40"), "Converting... (Time: 00:02:03.40)");
}

#[test]
fn start_decisions() {
    assert_eq!(start_decision(200, 100, "a.mp4"), StartDecision::Expired(200));
    assert_eq!(start_decision(200, 100, ""), StartDecision::Expired(200));
    assert_eq!(start_decision(100, 100, ""), StartDecision::NoInput);
    assert_eq!(start_decision(0, 100, "a.mp4"), StartDecision::Start);
}

#[test]
fn error_messages() {
    assert_eq!(ConversionError::SameAsInput.message(), "Output path is same as input path");
    assert_eq!(ConversionError::Cancelled.message(), "Conversion cancelled by user.");
}

#[test]
fn plan_rejects_invalid_times() {
    let mut r = request("/v/clip.mov");
    r.start = "abc".to_string();
    assert!(matches!(plan_conversion(&r), Some(Err(ConversionError::InvalidTime))));
    let mut r = request("/v/clip.mov");
    r.end = "1:2:60".to_string();
    assert!(matches!(plan_conversion(&r), Some(Err(ConversionError::InvalidTime))));
    let mut r = request("");
    r.start = "00:61:00".to_string();
    assert!(matches!(plan_conversion(&r), Some(Err(ConversionError::InvalidTime))));
}

#[test]
fn plan_accepts_time_forms() {
    for t in ["00:00:05", "1:23:45.5", "23:45", "1:30", "-5", "+5", "5.25s", "100ms", "7us", "90", "5."] {
        let mut r = request("/v/clip.mov");
        r.start = t.to_string();
        let plan = plan_conversion(&r).unwrap().unwrap();
        assert_eq!(plan.options, strings(&["-ss", t]));
    }
}

#[test]
fn failures_stop_the_conversion() {
    assert!(matches!(
        answer_report(false, true, FfmpegReport::Failure("Conversion failed!".to_string())),
        ReportAnswer::Stop(ConversionError::Failed(ref m)) if m == "Conversion failed!"
    ));
    assert!(matches!(
        answer_report(false, false, FfmpegReport::Exited(false)),
        ReportAnswer::Stop(ConversionError::Failed(ref m)) if m == "FFmpeg exited with a failure status"
    ));
    assert!(matches!(answer_report(false, true, FfmpegReport::Exited(true)), ReportAnswer::Complete));
    assert!(matches!(
        answer_report(true, true, FfmpegReport::Exited(true)),
        ReportAnswer::Stop(ConversionError::Cancelled)
    ));
}

#[test]
fn more_error_messages() {
    assert_eq!(ConversionError::InvalidTime.message(), "Invalid time format");
    assert_eq!(ConversionError::Failed("boom".to_string()).message(), "boom");
}
