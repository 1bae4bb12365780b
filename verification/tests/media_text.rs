use aura_factory::media::{
    after_probe_run, begin_probe, ffprobe_args, ffprobe_candidates, ProbeError, ProbeStep,
    audio_description, clock_text, find_stream, frame_rate_fields, resolution_text,
    sample_rate_text, stream_summary, time_fields, video_description, Format, ProbeResult, Stream,
};

fn stream(kind: &str) -> Stream {
    Stream {
        codec_type: kind.to_string(),
        width: None,
        height: None,
        r_frame_rate: None,
        bit_rate: None,
        sample_rate: None,
        codec_name: None,
    }
}

#[test]
fn clock_text_pads_each_field() {
    assert_eq!(clock_text(3725), "01:02:05");
    assert_eq!(clock_text(0), "00:00:00");
    assert_eq!(clock_text(59), "00:00:59");
    assert_eq!(clock_text(3600), "01:00:00");
}

#[test]
fn clock_text_keeps_long_hours() {
    assert_eq!(clock_text(360000), "100:00:00");
    assert_eq!(clock_text(36000 + 600 + 6), "10:10:06");
}

#[test]
fn clock_text_reads_back_as_three_fields() {
    let t = clock_text(7322);
    assert_eq!(t, "02:02:02");
    let f = time_fields(&t).unwrap();
    assert_eq!(f, vec!["02".to_string(), "02".to_string(), "02".to_string()]);
    let secs: u64 = f[0].parse::<u64>().unwrap() * 3600 + f[1].parse::<u64>().unwrap() * 60 + f[2].parse::<u64>().unwrap();
    assert_eq!(secs, 7322);
}

#[test]
fn time_fields_needs_exactly_three() {
    assert_eq!(
        time_fields("00:00:10.50"),
        Some(vec!["00".to_string(), "00".to_string(), "10.50".to_string()])
    );
    assert_eq!(time_fields("10.5"), None);
    assert_eq!(time_fields("00:10"), None);
    assert_eq!(time_fields("1:2:3:4"), None);
    assert_eq!(time_fields(""), None);
    assert_eq!(
        time_fields("::"),
        Some(vec![String::new(), String::new(), String::new()])
    );
}

#[test]
fn frame_rate_fields_split_on_slash() {
    assert_eq!(
        frame_rate_fields("30000/1001"),
        Some(("30000".to_string(), "1001".to_string()))
    );
    assert_eq!(frame_rate_fields("30/1"), Some(("30".to_string(), "1".to_string())));
    assert_eq!(frame_rate_fields("30"), None);
    assert_eq!(frame_rate_fields("1/2/3"), None);
    assert_eq!(frame_rate_fields("/"), Some((String::new(), String::new())));
}

#[test]
fn resolution_text_cases() {
    assert_eq!(resolution_text(Some(1920), Some(1080)), "1920x1080");
    assert_eq!(resolution_text(Some(0), Some(7)), "0x7");
    assert_eq!(resolution_text(Some(-5), Some(i32::MIN)), "-5x-2147483648");
    assert_eq!(resolution_text(None, Some(1080)), "Unknown Res");
    assert_eq!(resolution_text(Some(1920), None), "Unknown Res");
    assert_eq!(resolution_text(None, None), "Unknown Res");
}

#[test]
fn video_description_full() {
    let mut s = stream("video");
    s.codec_name = Some("h264".to_string());
    s.width = Some(1920);
    s.height = Some(1080);
    assert_eq!(
        video_description(&s, "29.97 fps", "5000k"),
        "Video: h264 1920x1080 29.97 fps 5000k"
    );
}

#[test]
fn video_description_trims_missing_parts() {
    let s = stream("video");
    assert_eq!(video_description(&s, "", ""), "Video:  Unknown Res");
    let mut t = stream("video");
    t.codec_name = Some("vp9".to_string());
    assert_eq!(video_description(&t, "25.00 fps", ""), "Video: vp9 Unknown Res 25.00 fps");
}

#[test]
fn audio_description_cases() {
    let mut s = stream("audio");
    s.sample_rate = Some("44100".to_string());
    assert_eq!(audio_description(&s, "128k"), "Audio: 44100Hz 128k");
    assert_eq!(audio_description(&s, ""), "Audio: 44100Hz");
    let t = stream("audio");
    assert_eq!(audio_description(&t, ""), "Audio:");
    assert_eq!(audio_description(&t, "96k"), "Audio:  96k");
}

#[test]
fn sample_rate_text_cases() {
    assert_eq!(sample_rate_text(&Some("48000".to_string())), "48000Hz");
    assert_eq!(sample_rate_text(&None), "");
}

#[test]
fn stream_summary_joins_present_parts() {
    assert_eq!(
        stream_summary(Some("Video: a".to_string()), Some("Audio: b".to_string())),
        "Video: a | Audio: b"
    );
    assert_eq!(stream_summary(Some("Video: a".to_string()), None), "Video: a");
    assert_eq!(stream_summary(None, Some("Audio: b".to_string())), "Audio: b");
    assert_eq!(stream_summary(None, None), "No stream info");
}

#[test]
fn find_stream_takes_first_of_kind() {
    let streams = vec![stream("audio"), stream("video"), stream("video"), stream("subtitle")];
    assert_eq!(find_stream(&streams, "video"), Some(1));
    assert_eq!(find_stream(&streams, "audio"), Some(0));
    assert_eq!(find_stream(&streams, "data"), None);
    assert_eq!(find_stream(&Vec::new(), "video"), None);
    assert_eq!(find_stream(&streams, "Video"), None);
}

#[test]
fn probe_result_holds_report() {
    let p = ProbeResult {
        format: Format { duration: "12.5".to_string() },
        streams: vec![stream("video")],
    };
    assert_eq!(p.format.duration, "12.5");
    assert_eq!(find_stream(&p.streams, "video"), Some(0));
}

#[test]
fn ffprobe_invocation() {
    assert_eq!(ffprobe_candidates(), vec!["./ffprobe", "ffprobe", "./target/debug/ffprobe"]);
    assert_eq!(
        ffprobe_args("a b.mp4"),
        vec!["-v", "quiet", "-print_format", "json", "-show_format", "-show_streams", "a b.mp4"]
    );
}

#[test]
fn ffprobe_candidates_in_turn() {
    assert_eq!(begin_probe(), ProbeStep::Run(0));
    assert_eq!(after_probe_run(0, false), ProbeStep::Run(1));
    assert_eq!(after_probe_run(1, false), ProbeStep::Run(2));
    assert_eq!(after_probe_run(2, false), ProbeStep::GiveUp);
    assert_eq!(after_probe_run(1, true), ProbeStep::ReadReport(1));
    assert_eq!(ProbeError::ExecutionFailed.message(), "ffprobe execution failed");
    assert_eq!(ProbeError::ParseFailed.message(), "JSON Parse Error");
}
