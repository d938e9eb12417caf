use vstd::prelude::*;

use crate::error::ToolError;
use crate::text::spec_sec_ms;
use crate::text::parse_sec_ms;
use crate::text::str_eq;

verus! {

/// One stream of the source media as the probing collaborator reports it,
/// reduced to the fields the core reads.  Absent fields stay absent; the
/// selection below decides what absence means.
pub struct ProbedStream {
    pub codec_type: Option<String>,
    pub codec_name: Option<String>,
    pub bit_rate: Option<String>,
    pub duration: Option<String>,
}

/// The per-job encoding parameters taken from the probe: the source's own
/// codecs and bitrates, and the probed duration of the source in
/// milliseconds.
pub struct AvParams {
    pub audio_codec: String,
    pub audio_bitrate: String,
    pub video_codec: String,
    pub video_bitrate: String,
    pub duration_ms: u64,
}

/// Whether a stream reports the given codec type.
pub open spec fn stream_is_type(s: ProbedStream, t: Seq<char>) -> bool {
    match s.codec_type {
        Some(ct) => ct@ == t,
        None => false,
    }
}

/// The first index at or after `from` of a stream with the given codec
/// type, or -1 when there is none.
pub open spec fn spec_first_of_type(ss: Seq<ProbedStream>, t: Seq<char>, from: int) -> int
    decreases ss.len() - from,
{
    if from < 0 || from >= ss.len() {
        -1
    } else if stream_is_type(ss[from], t) {
        from
    } else {
        spec_first_of_type(ss, t, from + 1)
    }
}

/// The first index of a type, when there is one, lies within the list and
/// is of that type.
pub proof fn lemma_first_of_type_bounds(ss: Seq<ProbedStream>, t: Seq<char>, from: int)
    requires
        0 <= from <= ss.len(),
    ensures
        spec_first_of_type(ss, t, from) == -1 || (from <= spec_first_of_type(ss, t, from)
            < ss.len() && stream_is_type(ss[spec_first_of_type(ss, t, from)], t)),
    decreases ss.len() - from,
{
    if from < ss.len() && !stream_is_type(ss[from], t) {
        lemma_first_of_type_bounds(ss, t, from + 1);
    }
}

/// The probe is usable for a trim job exactly when an audio and a video
/// stream are present and the first of each carries a codec name and a
/// bitrate, and the first video stream carries a duration.
pub open spec fn spec_av_usable(ss: Seq<ProbedStream>) -> bool {
    let a = spec_first_of_type(ss, "audio"@, 0);
    let v = spec_first_of_type(ss, "video"@, 0);
    &&& a >= 0
    &&& v >= 0
    &&& ss[a].codec_name is Some
    &&& ss[a].bit_rate is Some
    &&& ss[v].codec_name is Some
    &&& ss[v].bit_rate is Some
    &&& ss[v].duration is Some
}

/// The probed duration in milliseconds: the first video stream's duration
/// text read as seconds, or zero when that text is not a number the core
/// can read.
pub open spec fn spec_probed_duration_ms(ss: Seq<ProbedStream>) -> int {
    let v = spec_first_of_type(ss, "video"@, 0);
    let d = spec_sec_ms(ss[v].duration->0@);
    if 0 <= d <= u64::MAX {
        d
    } else {
        0
    }
}

fn first_of_type(streams: &Vec<ProbedStream>, t: &str) -> (r: Option<usize>)
    ensures
        r matches Some(k) ==> k < streams@.len() && spec_first_of_type(streams@, t@, 0) == k,
        r is None ==> spec_first_of_type(streams@, t@, 0) == -1,
{
    let n: usize = streams.len();
    let mut i: usize = 0;
    while i < n
        invariant
            n == streams@.len(),
            0 <= i <= n,
            spec_first_of_type(streams@, t@, 0) == spec_first_of_type(streams@, t@, i as int),
        decreases n - i,
    {
        let is_t: bool = match &streams[i].codec_type {
            Some(ct) => str_eq(ct.as_str(), t),
            None => false,
        };
        if is_t {
            return Some(i);
        }
        i = i + 1;
    }
    None
}

/// Selects the source's own audio and video parameters from the probe.
///
/// The job needs one audio and one video stream; the first of each kind is
/// taken, as are its codec name and bitrate.  A probe without both kinds,
/// or whose chosen streams lack one of those fields, is a malformed job
/// input and fails here, before any subprocess exists.
pub fn select_av(streams: &Vec<ProbedStream>) -> (r: Result<AvParams, ToolError>)
    ensures
        r is Ok <==> spec_av_usable(streams@),
        r is Err ==> r == Err::<AvParams, ToolError>(ToolError::MalformedJobInput),
        r matches Ok(av) ==> {
            let a = spec_first_of_type(streams@, "audio"@, 0);
            let v = spec_first_of_type(streams@, "video"@, 0);
            &&& av.audio_codec@ == streams@[a].codec_name->0@
            &&& av.audio_bitrate@ == streams@[a].bit_rate->0@
            &&& av.video_codec@ == streams@[v].codec_name->0@
            &&& av.video_bitrate@ == streams@[v].bit_rate->0@
            &&& av.duration_ms == spec_probed_duration_ms(streams@)
        },
{
    let a: usize = match first_of_type(streams, "audio") {
        Some(k) => k,
        None => {
            return Err(ToolError::MalformedJobInput);
        },
    };
    let v: usize = match first_of_type(streams, "video") {
        Some(k) => k,
        None => {
            return Err(ToolError::MalformedJobInput);
        },
    };
    let audio_codec: String = match &streams[a].codec_name {
        Some(c) => c.clone(),
        None => {
            return Err(ToolError::MalformedJobInput);
        },
    };
    let audio_bitrate: String = match &streams[a].bit_rate {
        Some(b) => b.clone(),
        None => {
            return Err(ToolError::MalformedJobInput);
        },
    };
    let video_codec: String = match &streams[v].codec_name {
        Some(c) => c.clone(),
        None => {
            return Err(ToolError::MalformedJobInput);
        },
    };
    let video_bitrate: String = match &streams[v].bit_rate {
        Some(b) => b.clone(),
        None => {
            return Err(ToolError::MalformedJobInput);
        },
    };
    let duration_ms: u64 = match &streams[v].duration {
        Some(text) => {
            match parse_sec_ms(text.as_str()) {
                Some(ms) => ms,
                None => 0,
            }
        },
        None => {
            return Err(ToolError::MalformedJobInput);
        },
    };
    Ok(
        AvParams {
            audio_codec,
            audio_bitrate,
            video_codec,
            video_bitrate,
            duration_ms,
        },
    )
}

} // verus!
