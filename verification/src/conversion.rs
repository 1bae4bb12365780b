//! Planning of one conversion: where the output goes, which arguments FFmpeg
//! gets, the command line that is logged, and the answer to each event that
//! FFmpeg reports while it runs.

use vstd::prelude::*;
use crate::text::{append_signed_decimal, signed_decimal, text_eq, views};
use crate::timetext::{is_time_text, valid_time_text};

verus! {

/// What the user asked for. Empty texts, and the neutral choices `"Source"`
/// (resolution, frame rate) and `"Auto"` (bitrates, sample rate, codec),
/// leave the corresponding FFmpeg option out.
#[derive(Debug)]
pub struct ConversionRequest {
    pub input: String,
    /// Extension of the output file, such as `"mp4"`.
    pub format: String,
    /// Start of the cut, such as `"00:00:10"`; empty for the beginning.
    pub start: String,
    /// End of the cut; empty for the end of the input.
    pub end: String,
    pub video_resolution: String,
    pub video_fps: String,
    pub video_bitrate: String,
    pub audio_sample_rate: String,
    pub audio_bitrate: String,
    pub video_codec: String,
}

/// Why a conversion does not complete.
#[derive(Debug, PartialEq, Eq)]
pub enum ConversionError {
    /// The start or the end of the cut is not a time in FFmpeg's syntax.
    InvalidTime,
    /// The output path would be the input path.
    SameAsInput,
    /// The user stopped the conversion.
    Cancelled,
    /// FFmpeg reported a failure; the text says which.
    Failed(String),
}

/// The text shown for an error.
pub open spec fn spec_error_message(e: ConversionError) -> Seq<char> {
    match e {
        ConversionError::InvalidTime => "Invalid time format"@,
        ConversionError::SameAsInput => "Output path is same as input path"@,
        ConversionError::Cancelled => "Conversion cancelled by user."@,
        ConversionError::Failed(m) => m@,
    }
}

impl ConversionError {
    /// The text shown for this error.
    pub fn message(&self) -> (r: String)
        ensures
            r@ == spec_error_message(*self),
    {
        match self {
            ConversionError::InvalidTime => String::from_str("Invalid time format"),
            ConversionError::SameAsInput => String::from_str("Output path is same as input path"),
            ConversionError::Cancelled => String::from_str("Conversion cancelled by user."),
            ConversionError::Failed(m) => m.clone(),
        }
    }
}

/// The file stem of a path (std's `Path::file_stem`), taken as a function of
/// the path's text.
pub uninterp spec fn path_file_stem(path: Seq<char>) -> Option<Seq<char>>;

/// The parent of a path (std's `Path::parent`).
pub uninterp spec fn path_parent(path: Seq<char>) -> Option<Seq<char>>;

/// A path extended by a name (std's `Path::join`).
pub uninterp spec fn path_join(base: Seq<char>, name: Seq<char>) -> Seq<char>;

/// Whether two paths are equal as paths (std's `PartialEq` for `Path`, which
/// compares components).
pub uninterp spec fn same_path(a: Seq<char>, b: Seq<char>) -> bool;

/// The view of an optional string.
pub open spec fn opt_view(o: Option<String>) -> Option<Seq<char>> {
    match o {
        Some(s) => Some(s@),
        None => None,
    }
}

/// std's `Path::file_stem` on the path `path`; the stem comes from a
/// `&str`, so it converts to text without loss. Its contract only names the
/// result: the rules for stems are std's.
#[verifier::external_body]
fn file_stem_of(path: &str) -> (r: Option<String>)
    ensures
        opt_view(r) == path_file_stem(path@),
{
    match std::path::Path::new(path).file_stem() {
        Some(s) => Some(s.to_string_lossy().into_owned()),
        None => None,
    }
}

/// std's `Path::parent` on the path `path`; only names the result.
#[verifier::external_body]
fn parent_of(path: &str) -> (r: Option<String>)
    ensures
        opt_view(r) == path_parent(path@),
{
    match std::path::Path::new(path).parent() {
        Some(p) => Some(p.to_string_lossy().into_owned()),
        None => None,
    }
}

/// std's `Path::join`; only names the result.
#[verifier::external_body]
fn join_path(base: &str, name: &str) -> (r: String)
    ensures
        r@ == path_join(base@, name@),
{
    std::path::Path::new(base).join(name).to_string_lossy().into_owned()
}

/// std's `==` on two `Path`s; only names the result.
#[verifier::external_body]
fn paths_equal(a: &str, b: &str) -> (r: bool)
    ensures
        r == same_path(a@, b@),
{
    std::path::Path::new(a) == std::path::Path::new(b)
}

/// The name of the output file: `"{stem}_converted.{format}"`.
pub open spec fn spec_output_name(stem: Seq<char>, format: Seq<char>) -> Seq<char> {
    stem + "_converted."@ + format
}

/// The output path next to the input, or the error when it would be the
/// input itself.
pub open spec fn spec_output_path(input: Seq<char>, format: Seq<char>) -> Result<Seq<char>, ConversionError> {
    let out = path_join(path_parent(input)->0, spec_output_name(path_file_stem(input)->0, format));
    if same_path(input, out) {
        Err(ConversionError::SameAsInput)
    } else {
        Ok(out)
    }
}

/// The output path for `input` converted to `format`: the file
/// `"{stem}_converted.{format}"` in the input's directory. Refused when it
/// would be the input path itself, so that the input is never overwritten.
pub fn output_path(input: &str, format: &str) -> (r: Result<String, ConversionError>)
    requires
        path_file_stem(input@) is Some,
        path_parent(input@) is Some,
    ensures
        match r {
            Ok(p) => spec_output_path(input@, format@) == Ok::<Seq<char>, ConversionError>(p@),
            Err(e) => spec_output_path(input@, format@) == Err::<Seq<char>, ConversionError>(e),
        },
        r matches Ok(p) ==> !same_path(input@, p@),
{
    let stem = file_stem_of(input).unwrap();
    let parent = parent_of(input).unwrap();
    let mut name = stem;
    name.append("_converted.");
    name.append(format);
    let out = join_path(parent.as_str(), name.as_str());
    if paths_equal(input, out.as_str()) {
        Err(ConversionError::SameAsInput)
    } else {
        Ok(out)
    }
}

/// Whether a setting leads to an FFmpeg option: it is neither empty nor the
/// neutral choice.
pub open spec fn setting_applies(value: Seq<char>, neutral: Seq<char>) -> bool {
    value.len() > 0 && value != neutral
}

/// The encoder FFmpeg is given for a codec choice: `"h264"` and `"h265"` name
/// the x264 and x265 encoders, any other choice is passed as it is.
pub open spec fn spec_codec_argument(codec: Seq<char>) -> Seq<char> {
    if codec == "h264"@ {
        "libx264"@
    } else if codec == "h265"@ {
        "libx265"@
    } else if codec == "copy"@ {
        "copy"@
    } else {
        codec
    }
}

/// A flag with its value when `on`, nothing otherwise.
pub open spec fn flag_pair(on: bool, flag: Seq<char>, value: Seq<char>) -> Seq<Seq<char>> {
    if on {
        seq![flag, value]
    } else {
        Seq::empty()
    }
}

/// The FFmpeg options between the input and the output, in order: the cut
/// (`-ss`, `-to`), then resolution, frame rate, video bitrate, audio sample
/// rate, audio bitrate and video codec.
pub open spec fn spec_ffmpeg_options(r: ConversionRequest) -> Seq<Seq<char>> {
    flag_pair(r.start@.len() > 0, "-ss"@, r.start@) + flag_pair(r.end@.len() > 0, "-to"@, r.end@)
        + flag_pair(setting_applies(r.video_resolution@, "Source"@), "-s"@, r.video_resolution@)
        + flag_pair(setting_applies(r.video_fps@, "Source"@), "-r"@, r.video_fps@) + flag_pair(
        setting_applies(r.video_bitrate@, "Auto"@),
        "-b:v"@,
        r.video_bitrate@,
    ) + flag_pair(setting_applies(r.audio_sample_rate@, "Auto"@), "-ar"@, r.audio_sample_rate@)
        + flag_pair(setting_applies(r.audio_bitrate@, "Auto"@), "-b:a"@, r.audio_bitrate@)
        + flag_pair(
        setting_applies(r.video_codec@, "Auto"@),
        "-c:v"@,
        spec_codec_argument(r.video_codec@),
    )
}

/// `" {flag} {value}"` when `on`, nothing otherwise.
pub open spec fn logged_flag(on: bool, flag: Seq<char>, value: Seq<char>) -> Seq<char> {
    if on {
        " "@ + flag + " "@ + value
    } else {
        Seq::empty()
    }
}

/// The command line that is logged before FFmpeg starts. It names the
/// input, the cut and the advanced settings, but not the video codec.
pub open spec fn spec_command_line(r: ConversionRequest, output: Seq<char>) -> Seq<char> {
    "ffmpeg -i \""@ + r.input@ + "\""@ + logged_flag(r.start@.len() > 0, "-ss"@, r.start@)
        + logged_flag(r.end@.len() > 0, "-to"@, r.end@) + logged_flag(
        setting_applies(r.video_resolution@, "Source"@),
        "-s"@,
        r.video_resolution@,
    ) + logged_flag(setting_applies(r.video_fps@, "Source"@), "-r"@, r.video_fps@) + logged_flag(
        setting_applies(r.video_bitrate@, "Auto"@),
        "-b:v"@,
        r.video_bitrate@,
    ) + logged_flag(setting_applies(r.audio_sample_rate@, "Auto"@), "-ar"@, r.audio_sample_rate@)
        + logged_flag(setting_applies(r.audio_bitrate@, "Auto"@), "-b:a"@, r.audio_bitrate@)
        + " -y \""@ + output + "\""@
}

fn applies(value: &String, neutral: &str) -> (b: bool)
    ensures
        b == setting_applies(value@, neutral@),
{
    let n: usize = value.as_str().unicode_len();
    n > 0 && !text_eq(value.as_str(), neutral)
}

/// The encoder FFmpeg is given for a codec choice.
pub fn codec_argument(codec: &str) -> (r: String)
    ensures
        r@ == spec_codec_argument(codec@),
        codec@ == "h264"@ ==> r@ == "libx264"@,
        codec@ == "h265"@ ==> r@ == "libx265"@,
        codec@ != "h264"@ && codec@ != "h265"@ ==> r@ == codec@,
{
    proof { lemma_codec_argument(codec@); }
    if text_eq(codec, "h264") {
        String::from_str("libx264")
    } else if text_eq(codec, "h265") {
        String::from_str("libx265")
    } else if text_eq(codec, "copy") {
        String::from_str("copy")
    } else {
        String::from_str(codec)
    }
}

fn push_flag(args: &mut Vec<String>, on: bool, flag: &str, value: &str)
    ensures
        views(final(args)@) == views(old(args)@) + flag_pair(on, flag@, value@),
{
    let ghost before = args@;
    if on {
        args.push(String::from_str(flag));
        args.push(String::from_str(value));
        assert(views(args@) =~= views(before) + flag_pair(on, flag@, value@));
    } else {
        assert(views(args@) =~= views(before) + flag_pair(on, flag@, value@));
    }
}

/// The FFmpeg options of a request, as they are passed between the input
/// and the output.
pub fn ffmpeg_options(req: &ConversionRequest) -> (args: Vec<String>)
    ensures
        views(args@) == spec_ffmpeg_options(*req),
        options_follow_settings(views(args@), *req),
{
    proof { lemma_options_follow_settings(*req); }
    let mut args: Vec<String> = Vec::new();
    assert(views(args@) =~= Seq::<Seq<char>>::empty());
    let start_on = req.start.as_str().unicode_len() > 0;
    push_flag(&mut args, start_on, "-ss", req.start.as_str());
    let end_on = req.end.as_str().unicode_len() > 0;
    push_flag(&mut args, end_on, "-to", req.end.as_str());
    push_flag(&mut args, applies(&req.video_resolution, "Source"), "-s", req.video_resolution.as_str());
    push_flag(&mut args, applies(&req.video_fps, "Source"), "-r", req.video_fps.as_str());
    push_flag(&mut args, applies(&req.video_bitrate, "Auto"), "-b:v", req.video_bitrate.as_str());
    push_flag(&mut args, applies(&req.audio_sample_rate, "Auto"), "-ar", req.audio_sample_rate.as_str());
    push_flag(&mut args, applies(&req.audio_bitrate, "Auto"), "-b:a", req.audio_bitrate.as_str());
    let codec = codec_argument(req.video_codec.as_str());
    push_flag(&mut args, applies(&req.video_codec, "Auto"), "-c:v", codec.as_str());
    assert(views(args@) =~= spec_ffmpeg_options(*req));
    args
}

fn append_flag(s: &mut String, on: bool, flag: &str, value: &str)
    ensures
        final(s)@ == old(s)@ + logged_flag(on, flag@, value@),
{
    if on {
        s.append(" ");
        s.append(flag);
        s.append(" ");
        s.append(value);
        assert(s@ =~= old(s)@ + logged_flag(on, flag@, value@));
    } else {
        assert(s@ =~= old(s)@ + logged_flag(on, flag@, value@));
    }
}

/// The command line that is logged before FFmpeg starts.
pub fn command_line(req: &ConversionRequest, output: &str) -> (r: String)
    ensures
        r@ == spec_command_line(*req, output@),
        r@ == "ffmpeg -i \""@ + req.input@ + "\""@ + logged_options(spec_ffmpeg_options(*req))
            + " -y \""@ + output@ + "\""@,
{
    proof { lemma_command_line_logs_options(*req, output@); }
    let mut s = String::from_str("ffmpeg -i \"");
    s.append(req.input.as_str());
    s.append("\"");
    let start_on = req.start.as_str().unicode_len() > 0;
    append_flag(&mut s, start_on, "-ss", req.start.as_str());
    let end_on = req.end.as_str().unicode_len() > 0;
    append_flag(&mut s, end_on, "-to", req.end.as_str());
    append_flag(&mut s, applies(&req.video_resolution, "Source"), "-s", req.video_resolution.as_str());
    append_flag(&mut s, applies(&req.video_fps, "Source"), "-r", req.video_fps.as_str());
    append_flag(&mut s, applies(&req.video_bitrate, "Auto"), "-b:v", req.video_bitrate.as_str());
    append_flag(&mut s, applies(&req.audio_sample_rate, "Auto"), "-ar", req.audio_sample_rate.as_str());
    append_flag(&mut s, applies(&req.audio_bitrate, "Auto"), "-b:a", req.audio_bitrate.as_str());
    s.append(" -y \"");
    s.append(output);
    s.append("\"");
    assert(s@ =~= spec_command_line(*req, output@));
    s
}

/// Everything a conversion needs before FFmpeg starts.
#[derive(Debug)]
pub struct ConversionPlan {
    pub output: String,
    /// The options passed between the input and the output.
    pub options: Vec<String>,
    /// The command line that is logged.
    pub command_line: String,
}

/// Whether the input path has both a file stem and a parent, so that an
/// output path can be derived from it.
pub open spec fn has_stem_and_parent(input: Seq<char>) -> bool {
    path_file_stem(input) is Some && path_parent(input) is Some
}

/// The start and the end of the cut are each empty or a time in FFmpeg's
/// duration syntax.
pub open spec fn times_valid(r: ConversionRequest) -> bool {
    &&& (r.start@.len() == 0 || is_time_text(r.start@))
    &&& (r.end@.len() == 0 || is_time_text(r.end@))
}

/// Plans the conversion of a request: its output path, FFmpeg options and
/// logged command line. First the start and the end of the cut are checked:
/// `InvalidTime` when one of them is not a time. Then `None` when the input
/// path has no file stem or no parent (such as an empty path or a root),
/// where no output path exists; the error when the output path would be the
/// input path.
pub fn plan_conversion(req: &ConversionRequest) -> (r: Option<Result<ConversionPlan, ConversionError>>)
    ensures
        !times_valid(*req) ==> r == Some(Err::<ConversionPlan, ConversionError>(ConversionError::InvalidTime)),
        r is None <==> times_valid(*req) && !has_stem_and_parent(req.input@),
        times_valid(*req) ==> (r matches Some(Err(e)) ==> spec_output_path(req.input@, req.format@)
            == Err::<Seq<char>, ConversionError>(e)),
        r matches Some(Ok(p)) ==> {
            &&& times_valid(*req)
            &&& spec_output_path(req.input@, req.format@) == Ok::<Seq<char>, ConversionError>(p.output@)
            &&& views(p.options@) == spec_ffmpeg_options(*req)
            &&& p.command_line@ == spec_command_line(*req, p.output@)
        },
{
    let start_ok = req.start.as_str().unicode_len() == 0 || valid_time_text(req.start.as_str());
    let end_ok = req.end.as_str().unicode_len() == 0 || valid_time_text(req.end.as_str());
    if !(start_ok && end_ok) {
        return Some(Err(ConversionError::InvalidTime));
    }
    let stem = file_stem_of(req.input.as_str());
    let parent = parent_of(req.input.as_str());
    if stem.is_none() || parent.is_none() {
        return None;
    }
    match output_path(req.input.as_str(), req.format.as_str()) {
        Err(e) => Some(Err(e)),
        Ok(output) => {
            let options = ffmpeg_options(req);
            let line = command_line(req, output.as_str());
            Some(Ok(ConversionPlan { output, options, command_line: line }))
        },
    }
}

/// What FFmpeg reports while it converts, as far as the conversion cares.
#[derive(Debug)]
pub enum FfmpegReport {
    /// A log line.
    Log(String),
    /// Progress, with the position reached in the output (`"00:01:02.50"`).
    Progress(String),
    /// A failure: an error outside FFmpeg's log, or a fatal log line.
    Failure(String),
    /// FFmpeg has exited, successfully or not.
    Exited(bool),
    /// Anything else.
    Other,
}

/// The answer to one report.
#[derive(Debug)]
pub enum ReportAnswer {
    /// Stop FFmpeg and end the conversion with this error.
    Stop(ConversionError),
    /// Print the log line.
    PrintLog(String),
    /// Show the share of the expected length reached.
    ShowPercent,
    /// Show this status text.
    ShowStatus(String),
    /// The conversion has completed successfully.
    Complete,
    /// Nothing to do.
    Ignore,
}

/// The error for an unsuccessful exit of FFmpeg.
pub open spec fn spec_exit_failure() -> Seq<char> {
    "FFmpeg exited with a failure status"@
}

/// `"Converting... {percent}%"`.
pub open spec fn spec_percent_status(percent: int) -> Seq<char> {
    "Converting... "@ + signed_decimal(percent) + "%"@
}

/// `"Converting... (Time: {time})"`.
pub open spec fn spec_time_status(time: Seq<char>) -> Seq<char> {
    "Converting... (Time: "@ + time + ")"@
}

/// The status text for a share of the expected length, in percent.
pub fn percent_status(percent: i32) -> (r: String)
    ensures
        r@ == spec_percent_status(percent as int),
{
    let mut s = String::from_str("Converting... ");
    append_signed_decimal(&mut s, percent as i64);
    s.append("%");
    s
}

/// The status text for a position reached when the expected length is not
/// known.
pub fn time_status(time: &str) -> (r: String)
    ensures
        r@ == spec_time_status(time@),
{
    let mut s = String::from_str("Converting... (Time: ");
    s.append(time);
    s.append(")");
    s
}

/// The answer to a report of FFmpeg. A requested cancellation comes first,
/// whatever was reported; a failure, or an unsuccessful exit, stops the
/// conversion with that failure; only a successful exit completes it.
/// Progress is shown as a percentage when the expected length is known, else
/// by the position reached.
pub fn answer_report(cancel_requested: bool, length_known: bool, report: FfmpegReport) -> (r: ReportAnswer)
    ensures
        cancel_requested ==> r == ReportAnswer::Stop(ConversionError::Cancelled),
        !cancel_requested ==> match report {
            FfmpegReport::Log(m) => r == ReportAnswer::PrintLog(m),
            FfmpegReport::Progress(t) => if length_known {
                r == ReportAnswer::ShowPercent
            } else {
                r matches ReportAnswer::ShowStatus(s) && s@ == spec_time_status(t@)
            },
            FfmpegReport::Failure(m) => r == ReportAnswer::Stop(ConversionError::Failed(m)),
            FfmpegReport::Exited(ok) => if ok {
                r == ReportAnswer::Complete
            } else {
                r matches ReportAnswer::Stop(ConversionError::Failed(m)) && m@ == spec_exit_failure()
            },
            FfmpegReport::Other => r == ReportAnswer::Ignore,
        },
{
    if cancel_requested {
        return ReportAnswer::Stop(ConversionError::Cancelled);
    }
    match report {
        FfmpegReport::Log(m) => ReportAnswer::PrintLog(m),
        FfmpegReport::Progress(t) => {
            if length_known {
                ReportAnswer::ShowPercent
            } else {
                ReportAnswer::ShowStatus(time_status(t.as_str()))
            }
        },
        FfmpegReport::Failure(m) => ReportAnswer::Stop(ConversionError::Failed(m)),
        FfmpegReport::Exited(ok) => {
            if ok {
                ReportAnswer::Complete
            } else {
                ReportAnswer::Stop(
                    ConversionError::Failed(String::from_str("FFmpeg exited with a failure status")),
                )
            }
        },
        FfmpegReport::Other => ReportAnswer::Ignore,
    }
}

/// Whether a conversion may start.
#[derive(Debug, PartialEq, Eq, Structural)]
pub enum StartDecision {
    /// This version has expired; the network time is given as the code.
    Expired(i64),
    /// No input file has been chosen.
    NoInput,
    /// The conversion may start.
    Start,
}

/// Whether a conversion may start: not once the network time is past the
/// expiry time, and not without an input file.
pub fn start_decision(network_time: i64, expires_at: i64, input: &str) -> (r: StartDecision)
    ensures
        network_time > expires_at ==> r == StartDecision::Expired(network_time),
        network_time <= expires_at && input@.len() == 0 ==> r == StartDecision::NoInput,
        network_time <= expires_at && input@.len() > 0 ==> r == StartDecision::Start,
{
    if network_time > expires_at {
        StartDecision::Expired(network_time)
    } else if input.unicode_len() == 0 {
        StartDecision::NoInput
    } else {
        StartDecision::Start
    }
}

/// `flag` stands at the flag position `i` of `opts` (an even position with a
/// value after it).
pub open spec fn flag_at(opts: Seq<Seq<char>>, i: int, flag: Seq<char>) -> bool {
    0 <= i && i + 1 < opts.len() && i % 2 == 0 && opts[i] == flag
}

/// `opts` passes `flag` at some flag position.
pub open spec fn names_flag(opts: Seq<Seq<char>>, flag: Seq<char>) -> bool {
    exists|i: int| #[trigger] flag_at(opts, i, flag)
}

/// The flags and values of a list of settings, each present when its
/// switch is on, in the order of the list.
spec fn pairs_of(e: Seq<(bool, Seq<char>, Seq<char>)>) -> Seq<Seq<char>>
    decreases e.len(),
{
    if e.len() == 0 {
        Seq::empty()
    } else {
        pairs_of(e.drop_last()) + flag_pair(e.last().0, e.last().1, e.last().2)
    }
}

/// The setting that the flag position `i` of `pairs_of(e)` comes from.
spec fn origin(e: Seq<(bool, Seq<char>, Seq<char>)>, i: int) -> int
    decreases e.len(),
{
    if e.len() == 0 {
        0
    } else if i < pairs_of(e.drop_last()).len() {
        origin(e.drop_last(), i)
    } else {
        e.len() - 1
    }
}

proof fn lemma_pairs(e: Seq<(bool, Seq<char>, Seq<char>)>)
    ensures
        pairs_of(e).len() % 2 == 0,
        forall|i: int|
            0 <= i < pairs_of(e).len() && i % 2 == 0 ==> {
                &&& 0 <= #[trigger] origin(e, i) < e.len()
                &&& i + 1 < pairs_of(e).len()
                &&& e[origin(e, i)].0
                &&& pairs_of(e)[i] == e[origin(e, i)].1
                &&& pairs_of(e)[i + 1] == e[origin(e, i)].2
            },
        forall|i: int, j: int|
            0 <= i < j < pairs_of(e).len() && i % 2 == 0 && j % 2 == 0 ==> #[trigger] origin(e, i)
                < #[trigger] origin(e, j),
        forall|k: int|
            0 <= k < e.len() && (#[trigger] e[k]).0 ==> exists|i: int|
                0 <= i < pairs_of(e).len() && i % 2 == 0 && #[trigger] origin(e, i) == k,
    decreases e.len(),
{
    if e.len() > 0 {
        let d = e.drop_last();
        lemma_pairs(d);
        let p = pairs_of(d);
        let l = p.len() as int;
        let x = e.last();
        let q = pairs_of(e);
        assert(q == p + flag_pair(x.0, x.1, x.2));
        assert forall|i: int| 0 <= i < q.len() && i % 2 == 0 implies {
            &&& 0 <= #[trigger] origin(e, i) < e.len()
            &&& i + 1 < q.len()
            &&& e[origin(e, i)].0
            &&& q[i] == e[origin(e, i)].1
            &&& q[i + 1] == e[origin(e, i)].2
        } by {
            if i < l {
                assert(origin(e, i) == origin(d, i));
                assert(d[origin(d, i)] == e[origin(d, i)]);
                assert(q[i] == p[i]);
                assert(q[i + 1] == p[i + 1]);
            } else {
                assert(x.0);
                assert(i == l);
                assert(q[i] == x.1);
                assert(q[i + 1] == x.2);
            }
        }
        assert forall|i: int, j: int|
            0 <= i < j < q.len() && i % 2 == 0 && j % 2 == 0 implies #[trigger] origin(e, i)
                < #[trigger] origin(e, j) by {
            if j < l {
                assert(origin(d, i) < origin(d, j));
            } else {
                assert(origin(d, i) < d.len());
            }
        }
        assert forall|k: int| 0 <= k < e.len() && (#[trigger] e[k]).0 implies exists|i: int|
            0 <= i < q.len() && i % 2 == 0 && #[trigger] origin(e, i) == k by {
            if k < d.len() {
                assert(d[k] == e[k]);
                let i = choose|i: int| 0 <= i < l && i % 2 == 0 && #[trigger] origin(d, i) == k;
                assert(origin(e, i) == k);
            } else {
                assert(origin(e, l) == k);
            }
        }
    }
}

/// The flags of a list of settings are pairwise different.
spec fn flags_distinct(e: Seq<(bool, Seq<char>, Seq<char>)>) -> bool {
    forall|a: int, b: int| 0 <= a < b < e.len() ==> (#[trigger] e[a]).1 != (#[trigger] e[b]).1
}

proof fn lemma_entry(e: Seq<(bool, Seq<char>, Seq<char>)>, k: int)
    requires
        flags_distinct(e),
        0 <= k < e.len(),
    ensures
        names_flag(pairs_of(e), e[k].1) <==> e[k].0,
        forall|i: int| #[trigger] flag_at(pairs_of(e), i, e[k].1) ==> origin(e, i) == k && pairs_of(e)[i + 1] == e[k].2,
{
    lemma_pairs(e);
    let q = pairs_of(e);
    assert forall|i: int| #[trigger] flag_at(q, i, e[k].1) implies origin(e, i) == k && q[i + 1] == e[k].2 by {
        let o = origin(e, i);
        if o != k {
            if o < k {
                assert(e[o].1 != e[k].1);
            } else {
                assert(e[k].1 != e[o].1);
            }
        }
    }
    if e[k].0 {
        let i = choose|i: int| 0 <= i < q.len() && i % 2 == 0 && #[trigger] origin(e, i) == k;
        assert(flag_at(q, i, e[k].1));
    }
}

proof fn lemma_entry_order(e: Seq<(bool, Seq<char>, Seq<char>)>, a: int, b: int)
    requires
        flags_distinct(e),
        0 <= a < b < e.len(),
    ensures
        forall|i: int, j: int|
            #[trigger] flag_at(pairs_of(e), i, e[a].1) && #[trigger] flag_at(pairs_of(e), j, e[b].1) ==> i < j,
{
    lemma_pairs(e);
    lemma_entry(e, a);
    lemma_entry(e, b);
    let q = pairs_of(e);
    assert forall|i: int, j: int| #[trigger] flag_at(q, i, e[a].1) && #[trigger] flag_at(q, j, e[b].1) implies i < j by {
        assert(origin(e, i) == a);
        assert(origin(e, j) == b);
        if j < i {
            assert(origin(e, j) < origin(e, i));
        }
        if i == j {
            assert(e[a].1 != e[b].1);
        }
    }
}

/// The settings of a request, in the order their options are passed.
spec fn option_entries(r: ConversionRequest) -> Seq<(bool, Seq<char>, Seq<char>)> {
    seq![
        (r.start@.len() > 0, "-ss"@, r.start@),
        (r.end@.len() > 0, "-to"@, r.end@),
        (setting_applies(r.video_resolution@, "Source"@), "-s"@, r.video_resolution@),
        (setting_applies(r.video_fps@, "Source"@), "-r"@, r.video_fps@),
        (setting_applies(r.video_bitrate@, "Auto"@), "-b:v"@, r.video_bitrate@),
        (setting_applies(r.audio_sample_rate@, "Auto"@), "-ar"@, r.audio_sample_rate@),
        (setting_applies(r.audio_bitrate@, "Auto"@), "-b:a"@, r.audio_bitrate@),
        (setting_applies(r.video_codec@, "Auto"@), "-c:v"@, spec_codec_argument(r.video_codec@)),
    ]
}

proof fn lemma_flag_texts()
    ensures
        "-ss"@ == seq!['-', 's', 's'],
        "-to"@ == seq!['-', 't', 'o'],
        "-s"@ == seq!['-', 's'],
        "-r"@ == seq!['-', 'r'],
        "-b:v"@ == seq!['-', 'b', ':', 'v'],
        "-ar"@ == seq!['-', 'a', 'r'],
        "-b:a"@ == seq!['-', 'b', ':', 'a'],
        "-c:v"@ == seq!['-', 'c', ':', 'v'],
{
    reveal_strlit("-ss");
    reveal_strlit("-to");
    reveal_strlit("-s");
    reveal_strlit("-r");
    reveal_strlit("-b:v");
    reveal_strlit("-ar");
    reveal_strlit("-b:a");
    reveal_strlit("-c:v");
    assert("-ss"@ =~= seq!['-', 's', 's']);
    assert("-to"@ =~= seq!['-', 't', 'o']);
    assert("-s"@ =~= seq!['-', 's']);
    assert("-r"@ =~= seq!['-', 'r']);
    assert("-b:v"@ =~= seq!['-', 'b', ':', 'v']);
    assert("-ar"@ =~= seq!['-', 'a', 'r']);
    assert("-b:a"@ =~= seq!['-', 'b', ':', 'a']);
    assert("-c:v"@ =~= seq!['-', 'c', ':', 'v']);
}

proof fn lemma_option_entries(r: ConversionRequest)
    ensures
        flags_distinct(option_entries(r)),
        spec_ffmpeg_options(r) == pairs_of(option_entries(r)),
{
    let e = option_entries(r);
    lemma_flag_texts();
    assert forall|a: int, b: int| 0 <= a < b < e.len() implies (#[trigger] e[a]).1 != (#[trigger] e[b]).1 by {
        let x = e[a].1;
        let y = e[b].1;
        assert(x.len() != y.len() || x[1] != y[1] || x[3] != y[3]);
    }
    reveal_with_fuel(pairs_of, 9);
    assert(e.take(8) =~= e);
    assert(e.drop_last() =~= e.take(7));
    assert(e.take(7).drop_last() =~= e.take(6));
    assert(e.take(6).drop_last() =~= e.take(5));
    assert(e.take(5).drop_last() =~= e.take(4));
    assert(e.take(4).drop_last() =~= e.take(3));
    assert(e.take(3).drop_last() =~= e.take(2));
    assert(e.take(2).drop_last() =~= e.take(1));
    assert(e.take(1).drop_last() =~= e.take(0));
    assert(spec_ffmpeg_options(r) =~= pairs_of(e));
}

/// What the FFmpeg options of a request are: flags and values in turn; each
/// setting's flag appears exactly when the setting is set (not empty, and for
/// all but the cut, not its neutral choice), always followed by the setting's
/// value (the encoder for the codec); the flags come in the order `-ss`,
/// `-to`, `-s`, `-r`, `-b:v`, `-ar`, `-b:a`, `-c:v`, and no other flag
/// appears.
pub open spec fn options_follow_settings(o: Seq<Seq<char>>, r: ConversionRequest) -> bool {
    &&& o.len() % 2 == 0
    &&& names_flag(o, "-ss"@) <==> r.start@.len() > 0
    &&& names_flag(o, "-to"@) <==> r.end@.len() > 0
    &&& names_flag(o, "-s"@) <==> (r.video_resolution@.len() > 0 && r.video_resolution@ != "Source"@)
    &&& names_flag(o, "-r"@) <==> (r.video_fps@.len() > 0 && r.video_fps@ != "Source"@)
    &&& names_flag(o, "-b:v"@) <==> (r.video_bitrate@.len() > 0 && r.video_bitrate@ != "Auto"@)
    &&& names_flag(o, "-ar"@) <==> (r.audio_sample_rate@.len() > 0 && r.audio_sample_rate@ != "Auto"@)
    &&& names_flag(o, "-b:a"@) <==> (r.audio_bitrate@.len() > 0 && r.audio_bitrate@ != "Auto"@)
    &&& names_flag(o, "-c:v"@) <==> (r.video_codec@.len() > 0 && r.video_codec@ != "Auto"@)
    &&& forall|i: int| #[trigger] flag_at(o, i, "-ss"@) ==> o[i + 1] == r.start@
    &&& forall|i: int| #[trigger] flag_at(o, i, "-to"@) ==> o[i + 1] == r.end@
    &&& forall|i: int| #[trigger] flag_at(o, i, "-s"@) ==> o[i + 1] == r.video_resolution@
    &&& forall|i: int| #[trigger] flag_at(o, i, "-r"@) ==> o[i + 1] == r.video_fps@
    &&& forall|i: int| #[trigger] flag_at(o, i, "-b:v"@) ==> o[i + 1] == r.video_bitrate@
    &&& forall|i: int| #[trigger] flag_at(o, i, "-ar"@) ==> o[i + 1] == r.audio_sample_rate@
    &&& forall|i: int| #[trigger] flag_at(o, i, "-b:a"@) ==> o[i + 1] == r.audio_bitrate@
    &&& forall|i: int| #[trigger] flag_at(o, i, "-c:v"@) ==> o[i + 1] == spec_codec_argument(r.video_codec@)
    &&& forall|i: int, j: int| #[trigger] flag_at(o, i, "-ss"@) && #[trigger] flag_at(o, j, "-to"@) ==> i < j
    &&& forall|i: int, j: int| #[trigger] flag_at(o, i, "-to"@) && #[trigger] flag_at(o, j, "-s"@) ==> i < j
    &&& forall|i: int, j: int| #[trigger] flag_at(o, i, "-s"@) && #[trigger] flag_at(o, j, "-r"@) ==> i < j
    &&& forall|i: int, j: int| #[trigger] flag_at(o, i, "-r"@) && #[trigger] flag_at(o, j, "-b:v"@) ==> i < j
    &&& forall|i: int, j: int| #[trigger] flag_at(o, i, "-b:v"@) && #[trigger] flag_at(o, j, "-ar"@) ==> i < j
    &&& forall|i: int, j: int| #[trigger] flag_at(o, i, "-ar"@) && #[trigger] flag_at(o, j, "-b:a"@) ==> i < j
    &&& forall|i: int, j: int| #[trigger] flag_at(o, i, "-b:a"@) && #[trigger] flag_at(o, j, "-c:v"@) ==> i < j
    &&& forall|i: int|
        0 <= i < o.len() && i % 2 == 0 ==> {
            ||| #[trigger] o[i] == "-ss"@
            ||| o[i] == "-to"@
            ||| o[i] == "-s"@
            ||| o[i] == "-r"@
            ||| o[i] == "-b:v"@
            ||| o[i] == "-ar"@
            ||| o[i] == "-b:a"@
            ||| o[i] == "-c:v"@
        }
}

/// The options planned for a request follow its settings: each option is
/// passed exactly when its setting is set, with the setting's value, in a
/// fixed order, and nothing else is passed.
pub proof fn lemma_options_follow_settings(r: ConversionRequest)
    ensures
        options_follow_settings(spec_ffmpeg_options(r), r),
{
    let e = option_entries(r);
    lemma_option_entries(r);
    lemma_pairs(e);
    let o = pairs_of(e);
    lemma_entry(e, 0);
    lemma_entry(e, 1);
    lemma_entry(e, 2);
    lemma_entry(e, 3);
    lemma_entry(e, 4);
    lemma_entry(e, 5);
    lemma_entry(e, 6);
    lemma_entry(e, 7);
    lemma_entry_order(e, 0, 1);
    lemma_entry_order(e, 1, 2);
    lemma_entry_order(e, 2, 3);
    lemma_entry_order(e, 3, 4);
    lemma_entry_order(e, 4, 5);
    lemma_entry_order(e, 5, 6);
    lemma_entry_order(e, 6, 7);
    assert forall|i: int| 0 <= i < o.len() && i % 2 == 0 implies {
        ||| #[trigger] o[i] == "-ss"@
        ||| o[i] == "-to"@
        ||| o[i] == "-s"@
        ||| o[i] == "-r"@
        ||| o[i] == "-b:v"@
        ||| o[i] == "-ar"@
        ||| o[i] == "-b:a"@
        ||| o[i] == "-c:v"@
    } by {
        let k = origin(e, i);
        assert(o[i] == e[k].1);
    }
}

/// The encoder given for a codec choice: x264 for `h264`, x265 for `h265`,
/// any other choice as it is.
pub proof fn lemma_codec_argument(codec: Seq<char>)
    ensures
        codec == "h264"@ ==> spec_codec_argument(codec) == "libx264"@,
        codec == "h265"@ ==> spec_codec_argument(codec) == "libx265"@,
        codec != "h264"@ && codec != "h265"@ ==> spec_codec_argument(codec) == codec,
{
    reveal_strlit("h264");
    reveal_strlit("h265");
    assert("h264"@ != "h265"@) by {
        assert("h264"@[3] != "h265"@[3]);
    }
}

/// The text logged for a list of options: `" {flag} {value}"` for each flag
/// and value in turn, leaving out the video codec.
#[verifier::opaque]
pub open spec fn logged_options(opts: Seq<Seq<char>>) -> Seq<char>
    decreases opts.len(),
{
    if opts.len() < 2 {
        Seq::empty()
    } else {
        (if opts[0] == "-c:v"@ {
            Seq::empty()
        } else {
            " "@ + opts[0] + " "@ + opts[1]
        }) + logged_options(opts.subrange(2, opts.len() as int))
    }
}

proof fn lemma_logged_concat(a: Seq<Seq<char>>, b: Seq<Seq<char>>)
    requires
        a.len() % 2 == 0,
    ensures
        logged_options(a + b) == logged_options(a) + logged_options(b),
    decreases a.len(),
{
    reveal_with_fuel(logged_options, 2);
    if a.len() == 0 {
        assert(a + b =~= b);
        assert(logged_options(a) == Seq::<char>::empty());
        assert(Seq::<char>::empty() + logged_options(b) =~= logged_options(b));
    } else {
        let rest = a.subrange(2, a.len() as int);
        lemma_logged_concat(rest, b);
        assert((a + b).subrange(2, (a + b).len() as int) =~= rest + b);
        assert((a + b)[0] == a[0]);
        assert((a + b)[1] == a[1]);
        let head: Seq<char> = if a[0] == "-c:v"@ { Seq::empty() } else { " "@ + a[0] + " "@ + a[1] };
        assert(logged_options(a + b) == head + logged_options(rest + b));
        assert(logged_options(a) == head + logged_options(rest));
        assert(head + (logged_options(rest) + logged_options(b)) =~= (head + logged_options(rest)) + logged_options(b));
    }
}

proof fn lemma_logged_pair(on: bool, flag: Seq<char>, value: Seq<char>)
    ensures
        flag_pair(on, flag, value).len() % 2 == 0,
        flag != "-c:v"@ ==> logged_options(flag_pair(on, flag, value)) == logged_flag(on, flag, value),
        flag == "-c:v"@ ==> logged_options(flag_pair(on, flag, value)) == Seq::<char>::empty(),
{
    reveal_with_fuel(logged_options, 2);
    if on {
        let p = flag_pair(on, flag, value);
        assert(p.subrange(2, 2) =~= Seq::<Seq<char>>::empty());
        assert(logged_options(p.subrange(2, 2)) == Seq::<char>::empty());
        if flag != "-c:v"@ {
            assert(logged_options(p) =~= logged_flag(on, flag, value));
        }
    }
}

proof fn lemma_flags_not_codec()
    ensures
        "-ss"@ != "-c:v"@,
        "-to"@ != "-c:v"@,
        "-s"@ != "-c:v"@,
        "-r"@ != "-c:v"@,
        "-b:v"@ != "-c:v"@,
        "-ar"@ != "-c:v"@,
        "-b:a"@ != "-c:v"@,
{
    lemma_flag_texts();
    assert(seq!['-', 'b', ':', 'v'][1] != seq!['-', 'c', ':', 'v'][1]);
    assert(seq!['-', 'b', ':', 'a'][1] != seq!['-', 'c', ':', 'v'][1]);
}

proof fn lemma_logged_eight(
    p1: Seq<Seq<char>>,
    p2: Seq<Seq<char>>,
    p3: Seq<Seq<char>>,
    p4: Seq<Seq<char>>,
    p5: Seq<Seq<char>>,
    p6: Seq<Seq<char>>,
    p7: Seq<Seq<char>>,
    p8: Seq<Seq<char>>,
)
    requires
        p1.len() % 2 == 0,
        p2.len() % 2 == 0,
        p3.len() % 2 == 0,
        p4.len() % 2 == 0,
        p5.len() % 2 == 0,
        p6.len() % 2 == 0,
        p7.len() % 2 == 0,
    ensures
        logged_options(p1 + p2 + p3 + p4 + p5 + p6 + p7 + p8) == logged_options(p1) + logged_options(p2)
            + logged_options(p3) + logged_options(p4) + logged_options(p5) + logged_options(p6)
            + logged_options(p7) + logged_options(p8),
{
    lemma_logged_concat(p1, p2);
    lemma_logged_concat(p1 + p2, p3);
    lemma_logged_concat(p1 + p2 + p3, p4);
    lemma_logged_concat(p1 + p2 + p3 + p4, p5);
    lemma_logged_concat(p1 + p2 + p3 + p4 + p5, p6);
    lemma_logged_concat(p1 + p2 + p3 + p4 + p5 + p6, p7);
    lemma_logged_concat(p1 + p2 + p3 + p4 + p5 + p6 + p7, p8);
}

proof fn lemma_concat_regroup(
    x: Seq<char>,
    l1: Seq<char>,
    l2: Seq<char>,
    l3: Seq<char>,
    l4: Seq<char>,
    l5: Seq<char>,
    l6: Seq<char>,
    l7: Seq<char>,
    e: Seq<char>,
    y1: Seq<char>,
    y2: Seq<char>,
    y3: Seq<char>,
)
    requires
        e.len() == 0,
    ensures
        x + l1 + l2 + l3 + l4 + l5 + l6 + l7 + y1 + y2 + y3 == x + (l1 + l2 + l3 + l4 + l5 + l6 + l7
            + e) + y1 + y2 + y3,
{
    assert(x + l1 + l2 + l3 + l4 + l5 + l6 + l7 + y1 + y2 + y3 =~= x + (l1 + l2 + l3 + l4 + l5 + l6
        + l7 + e) + y1 + y2 + y3);
}

/// The logged command line names the input, then exactly the options that
/// are passed to FFmpeg, flag and value in turn, apart from the video codec,
/// then the output.
#[verifier::rlimit(40)]
pub proof fn lemma_command_line_logs_options(r: ConversionRequest, output: Seq<char>)
    ensures
        spec_command_line(r, output) == "ffmpeg -i \""@ + r.input@ + "\""@ + logged_options(
            spec_ffmpeg_options(r),
        ) + " -y \""@ + output + "\""@,
{
    let p1 = flag_pair(r.start@.len() > 0, "-ss"@, r.start@);
    let p2 = flag_pair(r.end@.len() > 0, "-to"@, r.end@);
    let p3 = flag_pair(setting_applies(r.video_resolution@, "Source"@), "-s"@, r.video_resolution@);
    let p4 = flag_pair(setting_applies(r.video_fps@, "Source"@), "-r"@, r.video_fps@);
    let p5 = flag_pair(setting_applies(r.video_bitrate@, "Auto"@), "-b:v"@, r.video_bitrate@);
    let p6 = flag_pair(setting_applies(r.audio_sample_rate@, "Auto"@), "-ar"@, r.audio_sample_rate@);
    let p7 = flag_pair(setting_applies(r.audio_bitrate@, "Auto"@), "-b:a"@, r.audio_bitrate@);
    let p8 = flag_pair(
        setting_applies(r.video_codec@, "Auto"@),
        "-c:v"@,
        spec_codec_argument(r.video_codec@),
    );
    lemma_flags_not_codec();
    lemma_logged_pair(r.start@.len() > 0, "-ss"@, r.start@);
    lemma_logged_pair(r.end@.len() > 0, "-to"@, r.end@);
    lemma_logged_pair(setting_applies(r.video_resolution@, "Source"@), "-s"@, r.video_resolution@);
    lemma_logged_pair(setting_applies(r.video_fps@, "Source"@), "-r"@, r.video_fps@);
    lemma_logged_pair(setting_applies(r.video_bitrate@, "Auto"@), "-b:v"@, r.video_bitrate@);
    lemma_logged_pair(setting_applies(r.audio_sample_rate@, "Auto"@), "-ar"@, r.audio_sample_rate@);
    lemma_logged_pair(setting_applies(r.audio_bitrate@, "Auto"@), "-b:a"@, r.audio_bitrate@);
    lemma_logged_pair(
        setting_applies(r.video_codec@, "Auto"@),
        "-c:v"@,
        spec_codec_argument(r.video_codec@),
    );
    lemma_logged_eight(p1, p2, p3, p4, p5, p6, p7, p8);
    assert(spec_ffmpeg_options(r) == p1 + p2 + p3 + p4 + p5 + p6 + p7 + p8);
    let l1 = logged_flag(r.start@.len() > 0, "-ss"@, r.start@);
    let l2 = logged_flag(r.end@.len() > 0, "-to"@, r.end@);
    let l3 = logged_flag(setting_applies(r.video_resolution@, "Source"@), "-s"@, r.video_resolution@);
    let l4 = logged_flag(setting_applies(r.video_fps@, "Source"@), "-r"@, r.video_fps@);
    let l5 = logged_flag(setting_applies(r.video_bitrate@, "Auto"@), "-b:v"@, r.video_bitrate@);
    let l6 = logged_flag(setting_applies(r.audio_sample_rate@, "Auto"@), "-ar"@, r.audio_sample_rate@);
    let l7 = logged_flag(setting_applies(r.audio_bitrate@, "Auto"@), "-b:a"@, r.audio_bitrate@);
    let x = "ffmpeg -i \""@ + r.input@ + "\""@;
    lemma_concat_regroup(x, l1, l2, l3, l4, l5, l6, l7, logged_options(p8), " -y \""@, output, "\""@);
}

} // verus!
