//! What ffprobe reports of a media file, and the texts shown for it: the
//! length as a clock time and a one-line description of the first video
//! and the first audio stream.

use vstd::prelude::*;
use crate::text::{
    append_signed_decimal, append_two_digit, join_with, lemma_split_around, lemma_split_single,
    lemma_two_digit_no_colon, lemma_two_digit_value, all_decimal_digits, digits_value, signed_decimal, split_on, split_text, trim, trim_text, two_digit,
    views,
};

verus! {

/// The `format` section of ffprobe's JSON report.
#[derive(Debug)]
pub struct Format {
    /// The length in seconds, as ffprobe writes it (a decimal text).
    pub duration: String,
}

/// One entry of the `streams` section of ffprobe's JSON report.
#[derive(Debug)]
pub struct Stream {
    /// `"video"` or `"audio"` (or another kind that is not described).
    pub codec_type: String,
    pub width: Option<i32>,
    pub height: Option<i32>,
    /// Frame rate as a fraction, such as `"30/1"` or `"30000/1001"`.
    pub r_frame_rate: Option<String>,
    pub bit_rate: Option<String>,
    pub sample_rate: Option<String>,
    pub codec_name: Option<String>,
}

/// ffprobe's JSON report on a media file.
#[derive(Debug)]
pub struct ProbeResult {
    pub format: Format,
    /// Absent from the report means no streams.
    pub streams: Vec<Stream>,
}

/// The text of an optional string, empty when absent.
pub open spec fn text_or_empty(o: Option<String>) -> Seq<char> {
    match o {
        Some(s) => s@,
        None => Seq::empty(),
    }
}

/// `"{width}x{height}"` when both are known, else `"Unknown Res"`.
pub open spec fn spec_resolution_text(width: Option<i32>, height: Option<i32>) -> Seq<char> {
    match (width, height) {
        (Some(w), Some(h)) => signed_decimal(w as int) + "x"@ + signed_decimal(h as int),
        _ => "Unknown Res"@,
    }
}

/// `"Video: {codec} {resolution} {fps} {bitrate}"`, trimmed.
pub open spec fn spec_video_description(s: Stream, fps: Seq<char>, bitrate: Seq<char>) -> Seq<char> {
    trim(
        "Video: "@ + text_or_empty(s.codec_name) + " "@ + spec_resolution_text(s.width, s.height)
            + " "@ + fps + " "@ + bitrate,
    )
}

/// `"{rate}Hz"` when the sample rate is known, else empty.
pub open spec fn spec_sample_rate_text(rate: Option<String>) -> Seq<char> {
    match rate {
        Some(r) => r@ + "Hz"@,
        None => Seq::empty(),
    }
}

/// `"Audio: {sample rate} {bitrate}"`, trimmed.
pub open spec fn spec_audio_description(s: Stream, bitrate: Seq<char>) -> Seq<char> {
    trim("Audio: "@ + spec_sample_rate_text(s.sample_rate) + " "@ + bitrate)
}

/// The descriptions that are present, in order (video first).
pub open spec fn present_parts(video: Option<String>, audio: Option<String>) -> Seq<Seq<char>> {
    let v: Seq<Seq<char>> = match video {
        Some(t) => seq![t@],
        None => Seq::empty(),
    };
    match audio {
        Some(t) => v.push(t@),
        None => v,
    }
}

/// The descriptions joined with `" | "`, or `"No stream info"` when there
/// are none.
pub open spec fn spec_stream_summary(video: Option<String>, audio: Option<String>) -> Seq<char> {
    let parts = present_parts(video, audio);
    if parts.len() == 0 {
        "No stream info"@
    } else {
        join_with(parts, " | "@)
    }
}

/// `"HH:MM:SS"`: hours, minutes and seconds of a whole number of seconds,
/// each with at least two digits (hours may take more).
pub open spec fn spec_clock_text(secs: nat) -> Seq<char> {
    two_digit(secs / 3600) + ":"@ + two_digit((secs % 3600) / 60) + ":"@ + two_digit(secs % 60)
}

/// Index of the first stream whose kind is `kind`.
pub fn find_stream(streams: &Vec<Stream>, kind: &str) -> (r: Option<usize>)
    ensures
        match r {
            Some(i) => i < streams.len() && streams@[i as int].codec_type@ == kind@ && forall|j: int|
                0 <= j < i ==> (#[trigger] streams@[j]).codec_type@ != kind@,
            None => forall|j: int| 0 <= j < streams.len() ==> (#[trigger] streams@[j]).codec_type@ != kind@,
        },
{
    let mut i: usize = 0;
    while i < streams.len()
        invariant
            i <= streams.len(),
            forall|j: int| 0 <= j < i ==> (#[trigger] streams@[j]).codec_type@ != kind@,
        decreases streams.len() - i,
    {
        if crate::text::text_eq(streams[i].codec_type.as_str(), kind) {
            return Some(i);
        }
        i += 1;
    }
    None
}

/// `"{width}x{height}"` when both are known, else `"Unknown Res"`.
pub fn resolution_text(width: Option<i32>, height: Option<i32>) -> (r: String)
    ensures
        r@ == spec_resolution_text(width, height),
{
    match (width, height) {
        (Some(w), Some(h)) => {
            let mut s = String::new();
            append_signed_decimal(&mut s, w as i64);
            s.append("x");
            append_signed_decimal(&mut s, h as i64);
            assert(s@ =~= spec_resolution_text(width, height));
            s
        },
        _ => String::from_str("Unknown Res"),
    }
}

/// The one-line description of a video stream; the frame rate and bitrate
/// texts are computed by the caller.
pub fn video_description(stream: &Stream, fps: &str, bitrate: &str) -> (r: String)
    ensures
        r@ == spec_video_description(*stream, fps@, bitrate@),
{
    let mut s = String::from_str("Video: ");
    match &stream.codec_name {
        Some(c) => s.append(c.as_str()),
        None => {},
    }
    s.append(" ");
    let res = resolution_text(stream.width, stream.height);
    s.append(res.as_str());
    s.append(" ");
    s.append(fps);
    s.append(" ");
    s.append(bitrate);
    assert(s@ =~= "Video: "@ + text_or_empty(stream.codec_name) + " "@ + spec_resolution_text(
        stream.width,
        stream.height,
    ) + " "@ + fps@ + " "@ + bitrate@);
    trim_text(s.as_str())
}

/// `"{rate}Hz"` when the sample rate is known, else empty.
pub fn sample_rate_text(rate: &Option<String>) -> (r: String)
    ensures
        r@ == spec_sample_rate_text(*rate),
{
    match rate {
        Some(x) => {
            let mut s = x.clone();
            s.append("Hz");
            s
        },
        None => String::new(),
    }
}

/// The one-line description of an audio stream; the bitrate text is
/// computed by the caller.
pub fn audio_description(stream: &Stream, bitrate: &str) -> (r: String)
    ensures
        r@ == spec_audio_description(*stream, bitrate@),
{
    let mut s = String::from_str("Audio: ");
    let sr = sample_rate_text(&stream.sample_rate);
    s.append(sr.as_str());
    s.append(" ");
    s.append(bitrate);
    trim_text(s.as_str())
}

/// The stream descriptions joined with `" | "`, or `"No stream info"`.
pub fn stream_summary(video: Option<String>, audio: Option<String>) -> (r: String)
    ensures
        r@ == spec_stream_summary(video, audio),
        (video is Some && audio is Some) ==> r@ == video->0@ + " | "@ + audio->0@,
        (video is Some && audio is None) ==> r@ == video->0@,
        (video is None && audio is Some) ==> r@ == audio->0@,
        (video is None && audio is None) ==> r@ == "No stream info"@,
{
    let ghost parts = present_parts(video, audio);
    match (video, audio) {
        (Some(v), Some(a)) => {
            let ghost vv = v@;
            let ghost av = a@;
            let mut s = v;
            s.append(" | ");
            s.append(a.as_str());
            assert(parts =~= seq![vv, av]);
            assert(parts.drop_last() =~= seq![vv]);
            assert(join_with(parts, " | "@) == join_with(seq![vv], " | "@) + " | "@ + av);
            s
        },
        (Some(v), None) => {
            assert(parts =~= seq![v@]);
            v
        },
        (None, Some(a)) => {
            assert(parts =~= seq![a@]);
            a
        },
        (None, None) => String::from_str("No stream info"),
    }
}

/// The length shown for a whole number of seconds: `"HH:MM:SS"`.
pub fn clock_text(secs: u64) -> (r: String)
    ensures
        r@ == spec_clock_text(secs as nat),
        is_clock_of(r@, secs as nat),
{
    proof { lemma_clock_text_reads_back(secs as nat); }
    let mut s = String::new();
    append_two_digit(&mut s, secs / 3600);
    s.append(":");
    append_two_digit(&mut s, (secs % 3600) / 60);
    s.append(":");
    append_two_digit(&mut s, secs % 60);
    assert(s@ =~= spec_clock_text(secs as nat));
    s
}

/// The numerator and denominator texts of a frame rate such as `"30/1"`:
/// present when the text has exactly one `/`.
pub fn frame_rate_fields(rate: &str) -> (r: Option<(String, String)>)
    ensures
        r is Some <==> split_on(rate@, '/').len() == 2,
        r matches Some((a, b)) ==> a@ == split_on(rate@, '/')[0] && b@ == split_on(rate@, '/')[1],
{
    let parts = split_text(rate, '/');
    proof {
        assert(parts@.len() == views(parts@).len());
    }
    if parts.len() == 2 {
        let a = parts[0].clone();
        let b = parts[1].clone();
        proof {
            assert(views(parts@)[0] == parts@[0]@);
            assert(views(parts@)[1] == parts@[1]@);
        }
        Some((a, b))
    } else {
        None
    }
}

/// The hour, minute and second texts of a time such as `"00:00:10.50"`:
/// present when the text has exactly two `:`.
pub fn time_fields(time: &str) -> (r: Option<Vec<String>>)
    ensures
        r is Some <==> split_on(time@, ':').len() == 3,
        r matches Some(v) ==> views(v@) == split_on(time@, ':'),
{
    let parts = split_text(time, ':');
    proof {
        assert(parts@.len() == views(parts@).len());
    }
    if parts.len() == 3 {
        Some(parts)
    } else {
        None
    }
}

/// The ffprobe programs tried, in order: next to the working directory, on
/// the search path, then in the build directory.
pub open spec fn spec_ffprobe_candidates() -> Seq<Seq<char>> {
    seq!["./ffprobe"@, "ffprobe"@, "./target/debug/ffprobe"@]
}

/// How many ffprobe programs are tried.
pub const FFPROBE_CANDIDATES: usize = 3;

/// The arguments of ffprobe: quiet, a JSON report of the format and the
/// streams of `input`.
pub open spec fn spec_ffprobe_args(input: Seq<char>) -> Seq<Seq<char>> {
    seq!["-v"@, "quiet"@, "-print_format"@, "json"@, "-show_format"@, "-show_streams"@, input]
}

/// The ffprobe programs tried, in order.
pub fn ffprobe_candidates() -> (r: Vec<String>)
    ensures
        views(r@) == spec_ffprobe_candidates(),
        r@.len() == FFPROBE_CANDIDATES,
{
    let mut r: Vec<String> = Vec::new();
    r.push(String::from_str("./ffprobe"));
    r.push(String::from_str("ffprobe"));
    r.push(String::from_str("./target/debug/ffprobe"));
    assert(views(r@) =~= spec_ffprobe_candidates());
    r
}

/// The arguments of ffprobe for `input`.
pub fn ffprobe_args(input: &str) -> (r: Vec<String>)
    ensures
        views(r@) == spec_ffprobe_args(input@),
{
    let mut r: Vec<String> = Vec::new();
    r.push(String::from_str("-v"));
    r.push(String::from_str("quiet"));
    r.push(String::from_str("-print_format"));
    r.push(String::from_str("json"));
    r.push(String::from_str("-show_format"));
    r.push(String::from_str("-show_streams"));
    r.push(String::from_str(input));
    assert(views(r@) =~= spec_ffprobe_args(input@));
    r
}

/// What to do next while looking for a working ffprobe.
#[derive(Debug, PartialEq, Eq, Structural)]
pub enum ProbeStep {
    /// Run the candidate with this index.
    Run(usize),
    /// Read the JSON report of the candidate with this index, which ran
    /// successfully.
    ReadReport(usize),
    /// No candidate ran successfully.
    GiveUp,
}

/// Why a file could not be probed.
#[derive(Debug, PartialEq, Eq, Structural)]
pub enum ProbeError {
    /// No ffprobe candidate ran successfully.
    ExecutionFailed,
    /// The report was not the expected JSON.
    ParseFailed,
}

/// The text shown for a probe error.
pub open spec fn spec_probe_error_message(e: ProbeError) -> Seq<char> {
    match e {
        ProbeError::ExecutionFailed => "ffprobe execution failed"@,
        ProbeError::ParseFailed => "JSON Parse Error"@,
    }
}

impl ProbeError {
    /// The text shown for this error.
    pub fn message(&self) -> (r: String)
        ensures
            r@ == spec_probe_error_message(*self),
    {
        match self {
            ProbeError::ExecutionFailed => String::from_str("ffprobe execution failed"),
            ProbeError::ParseFailed => String::from_str("JSON Parse Error"),
        }
    }
}

/// The first step: run the first candidate.
pub fn begin_probe() -> (r: ProbeStep)
    ensures
        r == ProbeStep::Run(0),
{
    ProbeStep::Run(0)
}

/// After running the candidate `attempt`: read its report when it ran
/// successfully, else run the next candidate, or give up after the last.
pub fn after_probe_run(attempt: usize, succeeded: bool) -> (r: ProbeStep)
    ensures
        succeeded ==> r == ProbeStep::ReadReport(attempt),
        !succeeded && attempt + 1 < FFPROBE_CANDIDATES ==> r == ProbeStep::Run((attempt + 1) as usize),
        !succeeded && attempt + 1 >= FFPROBE_CANDIDATES ==> r == ProbeStep::GiveUp,
{
    if succeeded {
        ProbeStep::ReadReport(attempt)
    } else if attempt < FFPROBE_CANDIDATES - 1 {
        ProbeStep::Run(attempt + 1)
    } else {
        ProbeStep::GiveUp
    }
}

/// The clock text shown for a length splits, as a time text is split before
/// it is read, into exactly three fields: the hours, minutes and seconds,
/// which give back the length.
pub proof fn lemma_clock_text_fields(secs: nat)
    ensures
        split_on(spec_clock_text(secs), ':') == seq![
            two_digit(secs / 3600),
            two_digit((secs % 3600) / 60),
            two_digit(secs % 60),
        ],
        (secs / 3600) * 3600 + ((secs % 3600) / 60) * 60 + secs % 60 == secs,
        (secs % 3600) / 60 < 60,
{
    let h = two_digit(secs / 3600);
    let m = two_digit((secs % 3600) / 60);
    let s = two_digit(secs % 60);
    lemma_two_digit_no_colon(secs / 3600);
    lemma_two_digit_no_colon((secs % 3600) / 60);
    lemma_two_digit_no_colon(secs % 60);
    reveal_strlit(":");
    assert(spec_clock_text(secs) =~= h + seq![':'] + (m + seq![':'] + s));
    lemma_split_around(h, m + seq![':'] + s, ':');
    lemma_split_around(m, s, ':');
    lemma_split_single(h, ':');
    lemma_split_single(m, ':');
    lemma_split_single(s, ':');
    assert(seq![h] + (seq![m] + seq![s]) =~= seq![h, m, s]);
}

/// `t` is three `:`-separated fields of digits, each of at least two digits
/// with a leading zero only to reach two, minutes and seconds of exactly two;
/// read as hours, minutes below 60 and seconds below 60 they make `secs`.
pub open spec fn is_clock_of(t: Seq<char>, secs: nat) -> bool {
    let p = split_on(t, ':');
    &&& p.len() == 3
    &&& forall|i: int|
        0 <= i < 3 ==> (#[trigger] p[i]).len() >= 2 && all_decimal_digits(p[i]) && (p[i].len() > 2
            ==> p[i][0] != '0')
    &&& p[1].len() == 2 && p[2].len() == 2
    &&& digits_value(p[1]) < 60 && digits_value(p[2]) < 60
    &&& digits_value(p[0]) * 3600 + digits_value(p[1]) * 60 + digits_value(p[2]) == secs
}

/// The clock text shown for a length reads back as that length.
pub proof fn lemma_clock_text_reads_back(secs: nat)
    ensures
        is_clock_of(spec_clock_text(secs), secs),
{
    lemma_clock_text_fields(secs);
    lemma_two_digit_value(secs / 3600);
    lemma_two_digit_value((secs % 3600) / 60);
    lemma_two_digit_value(secs % 60);
}

} // verus!
