use vstd::prelude::*;

use crate::error::ToolError;
use crate::invocation::FileSpec;
use crate::invocation::Invocation;
use crate::invocation::Parameter;
use crate::invocation::no_overwrite;
use crate::pathname::find_last;
use crate::pathname::replace_extension;
use crate::pathname::spec_dir;
use crate::pathname::spec_extension;
use crate::pathname::spec_file_name;
use crate::pathname::spec_has_extension;
use crate::pathname::spec_stem;
use crate::pathname::suffix_stem;
use crate::planner::PlannedSegment;
use crate::probe::AvParams;
use crate::text::format_sec;
use crate::text::spec_dec_digits;
use crate::text::spec_seconds_text;
use crate::text::str_eq;
use crate::text::u64_to_string;

verus! {

/// A single invocation planned for a job: the command line to run, and the
/// output path returned to the caller when the job is done.
pub struct JobPlan {
    pub invocation: Invocation,
    pub target: String,
}

/// The option is a bare flag with the given word.
pub open spec fn is_single(p: Parameter, w: Seq<char>) -> bool {
    p matches Parameter::Single(s) && s@ == w
}

/// The option is a key with the given value.
pub open spec fn is_kv(p: Parameter, k: Seq<char>, v: Seq<char>) -> bool {
    p matches Parameter::KeyValue(key, value) && key@ == k && value@ == v
}

/// The global options every builder sets: never read standard input,
/// keep the diagnostic stream down to warnings, and overwrite the output
/// path without asking.
pub open spec fn spec_standard_globals(ps: Seq<Parameter>) -> bool {
    &&& ps.len() == 3
    &&& is_single(ps[0], "nostdin"@)
    &&& is_kv(ps[1], "v"@, "warning"@)
    &&& is_single(ps[2], "y"@)
}

/// The target of an operation that only changes the container or wraps
/// the audio: the source with its extension replaced.
pub open spec fn spec_replaced_path(p: Seq<char>, ext: Seq<char>) -> Seq<char> {
    spec_dir(p) + spec_stem(spec_file_name(p)) + seq!['.'] + ext
}

/// The target of the platform re-encode: the source with a fixed suffix
/// inserted between stem and extension.
pub open spec fn spec_suffixed_path(p: Seq<char>, suffix: Seq<char>) -> Seq<char> {
    spec_dir(p) + spec_stem(spec_file_name(p)) + suffix + seq!['.'] + spec_extension(
        spec_file_name(p),
    )
}

fn standard_globals() -> (r: Vec<Parameter>)
    ensures
        spec_standard_globals(r@),
{
    let mut r: Vec<Parameter> = Vec::new();
    r.push(Parameter::Single(String::from_str("nostdin")));
    r.push(Parameter::KeyValue(String::from_str("v"), String::from_str("warning")));
    r.push(Parameter::Single(String::from_str("y")));
    r
}

/// The fields every simple single-input job shares; the output options
/// are what distinguishes the operations.
pub open spec fn spec_simple_plan(
    p: JobPlan,
    source: Seq<char>,
    target: Seq<char>,
) -> bool {
    &&& p.target@ == target
    &&& p.invocation.command@ == "ffmpeg"@
    &&& spec_standard_globals(p.invocation.globals@)
    &&& p.invocation.inputs@.len() == 1
    &&& p.invocation.inputs@[0].path@ == source
    &&& p.invocation.inputs@[0].options@.len() == 0
    &&& p.invocation.outputs@.len() == 1
    &&& p.invocation.outputs@[0].path@ == target
    &&& no_overwrite(p.invocation)
}

fn assemble_simple(source: &str, target: String, out_options: Vec<Parameter>) -> (r: JobPlan)
    requires
        target@ != source@,
    ensures
        spec_simple_plan(r, source@, target@),
        r.invocation.outputs@[0].options@ == out_options@,
{
    let invocation = Invocation {
        command: String::from_str("ffmpeg"),
        globals: standard_globals(),
        inputs: vec![FileSpec { path: String::from_str(source), options: Vec::new() }],
        outputs: vec![FileSpec { path: target.clone(), options: out_options }],
    };
    JobPlan { invocation, target }
}

/// Plans the container remux: the source's streams are copied verbatim
/// into an mp4 container beside it.  Accepted exactly when the source has
/// a file name and the derived output path is not the source itself.
pub fn flv2mp4(source: &str) -> (r: Result<JobPlan, ToolError>)
    ensures
        r is Ok <==> (spec_file_name(source@).len() > 0 && spec_replaced_path(source@, "mp4"@)
            != source@),
        r is Err ==> r == Err::<JobPlan, ToolError>(ToolError::MalformedJobInput),
        r matches Ok(p) ==> {
            &&& spec_simple_plan(p, source@, spec_replaced_path(source@, "mp4"@))
            &&& p.invocation.outputs@[0].options@.len() == 2
            &&& is_kv(p.invocation.outputs@[0].options@[0], "vcodec"@, "copy"@)
            &&& is_kv(p.invocation.outputs@[0].options@[1], "acodec"@, "copy"@)
        },
{
    let target: String = match replace_extension(source, "mp4") {
        Some(t) => t,
        None => {
            return Err(ToolError::MalformedJobInput);
        },
    };
    if str_eq(target.as_str(), source) {
        return Err(ToolError::MalformedJobInput);
    }
    let mut opts: Vec<Parameter> = Vec::new();
    opts.push(Parameter::KeyValue(String::from_str("vcodec"), String::from_str("copy")));
    opts.push(Parameter::KeyValue(String::from_str("acodec"), String::from_str("copy")));
    Ok(assemble_simple(source, target, opts))
}

/// Plans the audio extraction: only the audio stream is mapped, copied
/// into an m4a container beside the source.  Accepted exactly when the
/// source has a file name and the derived output path is not the source
/// itself.
pub fn extract_audio(source: &str) -> (r: Result<JobPlan, ToolError>)
    ensures
        r is Ok <==> (spec_file_name(source@).len() > 0 && spec_replaced_path(source@, "m4a"@)
            != source@),
        r is Err ==> r == Err::<JobPlan, ToolError>(ToolError::MalformedJobInput),
        r matches Ok(p) ==> {
            &&& spec_simple_plan(p, source@, spec_replaced_path(source@, "m4a"@))
            &&& p.invocation.outputs@[0].options@.len() == 2
            &&& is_kv(p.invocation.outputs@[0].options@[0], "map"@, "0:a"@)
            &&& is_kv(p.invocation.outputs@[0].options@[1], "codec"@, "copy"@)
        },
{
    let target: String = match replace_extension(source, "m4a") {
        Some(t) => t,
        None => {
            return Err(ToolError::MalformedJobInput);
        },
    };
    if str_eq(target.as_str(), source) {
        return Err(ToolError::MalformedJobInput);
    }
    let mut opts: Vec<Parameter> = Vec::new();
    opts.push(Parameter::KeyValue(String::from_str("map"), String::from_str("0:a")));
    opts.push(Parameter::KeyValue(String::from_str("codec"), String::from_str("copy")));
    Ok(assemble_simple(source, target, opts))
}

/// A path is its directory part followed by its file name.
proof fn lemma_path_split(p: Seq<char>)
    ensures
        spec_dir(p) + spec_file_name(p) =~= p,
{
    crate::pathname::lemma_last_index_is_occurrence(p, '/');
}

/// A file name with an extension is its stem, the dot, and the extension.
proof fn lemma_name_split(name: Seq<char>)
    requires
        spec_has_extension(name),
    ensures
        spec_stem(name) + seq!['.'] + spec_extension(name) =~= name,
{
    crate::pathname::lemma_last_index_is_occurrence(name, '.');
    assert(spec_stem(name) + seq!['.'] + spec_extension(name) =~= name);
}

/// Plans the platform re-encode of the hi-res profile: the video stream
/// is copied, the audio stream is re-encoded to the lossless codec at a
/// 32-bit sample format and 48 kHz, into an output named after the source
/// with the profile suffix.  Accepted exactly when the source has a file
/// name with an extension; the suffix makes the output longer than the
/// source, so the two can never collide.
pub fn encode_bili_hires(source: &str) -> (r: Result<JobPlan, ToolError>)
    ensures
        r is Ok <==> (spec_file_name(source@).len() > 0 && spec_has_extension(
            spec_file_name(source@),
        )),
        r is Err ==> r == Err::<JobPlan, ToolError>(ToolError::MalformedJobInput),
        r matches Ok(p) ==> {
            &&& spec_simple_plan(p, source@, spec_suffixed_path(source@, "-bili_hires"@))
            &&& p.invocation.outputs@[0].options@.len() == 6
            &&& is_kv(p.invocation.outputs@[0].options@[0], "vcodec"@, "copy"@)
            &&& is_kv(p.invocation.outputs@[0].options@[1], "acodec"@, "flac"@)
            &&& is_single(p.invocation.outputs@[0].options@[2], "strict"@)
            &&& is_single(p.invocation.outputs@[0].options@[3], "2"@)
            &&& is_kv(p.invocation.outputs@[0].options@[4], "sample_fmt"@, "s32"@)
            &&& is_kv(p.invocation.outputs@[0].options@[5], "ar"@, "48000"@)
        },
{
    let target: String = match suffix_stem(source, "-bili_hires") {
        Some(t) => t,
        None => {
            return Err(ToolError::MalformedJobInput);
        },
    };
    proof {
        reveal_strlit("-bili_hires");
        lemma_path_split(source@);
        lemma_name_split(spec_file_name(source@));
        assert(target@.len() == source@.len() + 11);
        assert(target@ != source@);
    }
    let mut opts: Vec<Parameter> = Vec::new();
    opts.push(Parameter::KeyValue(String::from_str("vcodec"), String::from_str("copy")));
    opts.push(Parameter::KeyValue(String::from_str("acodec"), String::from_str("flac")));
    opts.push(Parameter::Single(String::from_str("strict")));
    opts.push(Parameter::Single(String::from_str("2")));
    opts.push(Parameter::KeyValue(String::from_str("sample_fmt"), String::from_str("s32")));
    opts.push(Parameter::KeyValue(String::from_str("ar"), String::from_str("48000")));
    Ok(assemble_simple(source, target, opts))
}

/// The file name a trim segment is written under, before the extension
/// rule is applied: an unnamed segment is the source's stem with a
/// one-based segment counter, a named one is the counter with the name.
pub open spec fn spec_segment_name(
    src_stem: Seq<char>,
    index: int,
    seg_name: Seq<char>,
) -> Seq<char> {
    if seg_name.len() == 0 {
        src_stem + "-segment-"@ + spec_dec_digits(index + 1)
    } else {
        spec_dec_digits(index + 1) + "-"@ + seg_name
    }
}

/// The output path of one trim segment: the derived name, placed beside
/// the source and given the source's extension; a dot inside the derived
/// name is treated as an extension's dot and the part after it replaced.
pub open spec fn spec_segment_target(p: Seq<char>, index: int, seg_name: Seq<char>) -> Seq<
    char,
> {
    spec_dir(p) + spec_stem(spec_segment_name(spec_stem(spec_file_name(p)), index, seg_name))
        + seq!['.'] + spec_extension(spec_file_name(p))
}

/// Derives the output path of one trim segment.  The source must have a
/// file name with an extension; a segment name holding a path separator
/// would escape the source's directory and is refused.
pub fn segment_target(source: &str, index: usize, seg_name: &str) -> (r: Option<String>)
    requires
        index < usize::MAX,
    ensures
        r is Some <==> (spec_file_name(source@).len() > 0 && spec_has_extension(
            spec_file_name(source@),
        ) && spec_first_index_of_slash(seg_name@) == -1),
        r matches Some(t) ==> t@ == spec_segment_target(source@, index as int, seg_name@),
{
    let n: usize = source.unicode_len();
    let ns: usize = match find_last(source, '/') {
        Some(k) => k + 1,
        None => 0,
    };
    if ns == n {
        assert(spec_file_name(source@).len() == 0);
        return None;
    }
    let name: &str = source.substring_char(ns, n);
    proof {
        assert(name@ =~= spec_file_name(source@));
    }
    let d: usize = match find_last(name, '.') {
        Some(d) if d > 0 => d,
        _ => {
            return None;
        },
    };
    match crate::text::find_first(seg_name, '/') {
        Some(_) => {
            return None;
        },
        None => {},
    }
    let stem: &str = source.substring_char(ns, ns + d);
    let counter: String = u64_to_string((index as u64) + 1);
    let derived: String = if seg_name.unicode_len() == 0 {
        String::from_str(stem).concat("-segment-").concat(counter.as_str())
    } else {
        counter.concat("-").concat(seg_name)
    };
    proof {
        assert(stem@ =~= spec_stem(spec_file_name(source@)));
        assert(derived@ == spec_segment_name(
            spec_stem(spec_file_name(source@)),
            index as int,
            seg_name@,
        ));
    }
    let m: usize = derived.as_str().unicode_len();
    let dstem_end: usize = match find_last(derived.as_str(), '.') {
        Some(k) if k > 0 => k,
        _ => m,
    };
    let dstem: &str = derived.as_str().substring_char(0, dstem_end);
    let dir: &str = source.substring_char(0, ns);
    let extension: &str = source.substring_char(ns + d + 1, n);
    let t: String = String::from_str(dir).concat(dstem).concat(".").concat(extension);
    proof {
        reveal_strlit(".");
        assert(dstem@ =~= spec_stem(derived@));
        assert(dir@ =~= spec_dir(source@));
        assert(extension@ =~= spec_extension(spec_file_name(source@)));
        assert(t@ =~= spec_segment_target(source@, index as int, seg_name@));
    }
    Some(t)
}

/// Whether the text holds a path separator: the first place it does, or
/// -1 when it does not.
pub open spec fn spec_first_index_of_slash(s: Seq<char>) -> int {
    crate::text::spec_first_index_of(s, '/', 0)
}

/// Plans the run of one trim segment: the source restricted to the
/// segment's time range, re-encoded with the source's own codecs and
/// bitrates into the segment's derived output path.
pub fn trim_segment_invocation(
    source: &str,
    seg: &PlannedSegment,
    index: usize,
    av: &AvParams,
) -> (r: Result<JobPlan, ToolError>)
    requires
        index < usize::MAX,
    ensures
        r is Ok <==> (spec_file_name(source@).len() > 0 && spec_has_extension(
            spec_file_name(source@),
        ) && spec_first_index_of_slash(seg.name@) == -1 && spec_segment_target(
            source@,
            index as int,
            seg.name@,
        ) != source@),
        r is Err ==> r == Err::<JobPlan, ToolError>(ToolError::MalformedJobInput),
        r matches Ok(p) ==> {
            &&& p.target@ == spec_segment_target(source@, index as int, seg.name@)
            &&& p.invocation.command@ == "ffmpeg"@
            &&& spec_standard_globals(p.invocation.globals@)
            &&& p.invocation.inputs@.len() == 1
            &&& p.invocation.inputs@[0].path@ == source@
            &&& p.invocation.inputs@[0].options@.len() == 2
            &&& is_kv(
                p.invocation.inputs@[0].options@[0],
                "ss"@,
                spec_seconds_text(seg.start_ms as int),
            )
            &&& is_kv(
                p.invocation.inputs@[0].options@[1],
                "to"@,
                spec_seconds_text(seg.end_ms as int),
            )
            &&& p.invocation.outputs@.len() == 1
            &&& p.invocation.outputs@[0].path@ == p.target@
            &&& p.invocation.outputs@[0].options@.len() == 4
            &&& is_kv(p.invocation.outputs@[0].options@[0], "vcodec"@, av.video_codec@)
            &&& is_kv(p.invocation.outputs@[0].options@[1], "acodec"@, av.audio_codec@)
            &&& is_kv(p.invocation.outputs@[0].options@[2], "b:a"@, av.audio_bitrate@)
            &&& is_kv(p.invocation.outputs@[0].options@[3], "b:v"@, av.video_bitrate@)
            &&& no_overwrite(p.invocation)
        },
{
    let target: String = match segment_target(source, index, seg.name.as_str()) {
        Some(t) => t,
        None => {
            return Err(ToolError::MalformedJobInput);
        },
    };
    if str_eq(target.as_str(), source) {
        return Err(ToolError::MalformedJobInput);
    }
    let mut in_opts: Vec<Parameter> = Vec::new();
    in_opts.push(Parameter::KeyValue(String::from_str("ss"), format_sec(seg.start_ms)));
    in_opts.push(Parameter::KeyValue(String::from_str("to"), format_sec(seg.end_ms)));
    let mut out_opts: Vec<Parameter> = Vec::new();
    out_opts.push(Parameter::KeyValue(String::from_str("vcodec"), av.video_codec.clone()));
    out_opts.push(Parameter::KeyValue(String::from_str("acodec"), av.audio_codec.clone()));
    out_opts.push(Parameter::KeyValue(String::from_str("b:a"), av.audio_bitrate.clone()));
    out_opts.push(Parameter::KeyValue(String::from_str("b:v"), av.video_bitrate.clone()));
    let invocation = Invocation {
        command: String::from_str("ffmpeg"),
        globals: standard_globals(),
        inputs: vec![FileSpec { path: String::from_str(source), options: in_opts }],
        outputs: vec![FileSpec { path: target.clone(), options: out_opts }],
    };
    Ok(JobPlan { invocation, target })
}

} // verus!
