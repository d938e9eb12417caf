use vstd::prelude::*;

use crate::error::ToolError;
use crate::invocation::Invocation;
use crate::invocation::views;

verus! {

/// The platform the process runs on, as far as the executable search is
/// concerned.  Platforms without a well-known install list fall back to the
/// bare command name on the search path.
pub enum OsPlatform {
    MacOs,
    Linux,
    Other,
}

/// The ordered list of well-known install locations of the transcoder
/// binary on each platform.
pub open spec fn spec_candidates(p: OsPlatform) -> Seq<Seq<char>> {
    match p {
        OsPlatform::MacOs => seq![
            "/opt/homebrew/bin/ffmpeg"@,
            "/opt/homebrew/sbin/ffmpeg"@,
            "/usr/local/bin/ffmpeg"@,
            "/usr/bin/ffmpeg"@,
            "/bin/ffmpeg"@,
            "/usr/sbin/ffmpeg"@,
            "/sbin/ffmpeg"@,
        ],
        OsPlatform::Linux => seq![
            "/usr/local/bin/ffmpeg"@,
            "/usr/bin/ffmpeg"@,
            "/bin/ffmpeg"@,
            "/usr/sbin/ffmpeg"@,
            "/sbin/ffmpeg"@,
        ],
        OsPlatform::Other => Seq::empty(),
    }
}

/// The candidate paths to probe for the given platform, in the order they
/// are to be tried.
pub fn candidate_paths(platform: &OsPlatform) -> (r: Vec<String>)
    ensures
        views(r@) == spec_candidates(*platform),
{
    let mut r: Vec<String> = Vec::new();
    match platform {
        OsPlatform::MacOs => {
            r.push(String::from_str("/opt/homebrew/bin/ffmpeg"));
            r.push(String::from_str("/opt/homebrew/sbin/ffmpeg"));
            r.push(String::from_str("/usr/local/bin/ffmpeg"));
            r.push(String::from_str("/usr/bin/ffmpeg"));
            r.push(String::from_str("/bin/ffmpeg"));
            r.push(String::from_str("/usr/sbin/ffmpeg"));
            r.push(String::from_str("/sbin/ffmpeg"));
        },
        OsPlatform::Linux => {
            r.push(String::from_str("/usr/local/bin/ffmpeg"));
            r.push(String::from_str("/usr/bin/ffmpeg"));
            r.push(String::from_str("/bin/ffmpeg"));
            r.push(String::from_str("/usr/sbin/ffmpeg"));
            r.push(String::from_str("/sbin/ffmpeg"));
        },
        OsPlatform::Other => {},
    }
    proof {
        assert(views(r@) =~~= spec_candidates(*platform));
    }
    r
}

/// The first index whose presence flag is set, or -1 when none is.
pub open spec fn spec_first_present(present: Seq<bool>, from: int) -> int
    decreases present.len() - from,
{
    if from < 0 || from >= present.len() {
        -1
    } else if present[from] {
        from
    } else {
        spec_first_present(present, from + 1)
    }
}

/// The first present index, when there is one, lies within the list and
/// its flag is set.
pub proof fn lemma_first_present_bounds(present: Seq<bool>, from: int)
    requires
        0 <= from <= present.len(),
    ensures
        spec_first_present(present, from) == -1 || (from <= spec_first_present(present, from)
            < present.len() && present[spec_first_present(present, from)]),
    decreases present.len() - from,
{
    if from < present.len() && !present[from] {
        lemma_first_present_bounds(present, from + 1);
    }
}

/// Picks the first candidate whose filesystem presence was observed.  The
/// caller supplies one presence flag per candidate, in the same order;
/// the filesystem itself is read at the boundary of the library.
pub fn first_present(candidates: &Vec<String>, present: &Vec<bool>) -> (r: Option<String>)
    requires
        candidates@.len() == present@.len(),
    ensures
        r is Some <==> spec_first_present(present@, 0) >= 0,
        r matches Some(p) ==> p@ == candidates@[spec_first_present(present@, 0)]@,
{
    let n: usize = candidates.len();
    let mut i: usize = 0;
    while i < n
        invariant
            n == candidates@.len() == present@.len(),
            0 <= i <= n,
            spec_first_present(present@, 0) == spec_first_present(present@, i as int),
        decreases n - i,
    {
        if present[i] {
            return Some(candidates[i].clone());
        }
        i = i + 1;
    }
    None
}

/// Resolves a path for the transcoder binary from the well-known install
/// list, failing only when no listed location is present; the bare-name
/// fallback is the caller's last resort at spawn time and is represented
/// by an invocation whose command was never replaced.
pub fn find_ffmpeg_executable(candidates: &Vec<String>, present: &Vec<bool>) -> (r: Result<
    String,
    ToolError,
>)
    requires
        candidates@.len() == present@.len(),
    ensures
        r is Ok <==> spec_first_present(present@, 0) >= 0,
        r matches Ok(p) ==> p@ == candidates@[spec_first_present(present@, 0)]@,
        r is Err ==> r == Err::<String, ToolError>(ToolError::ExecutableNotFound),
{
    match first_present(candidates, present) {
        Some(p) => Ok(p),
        None => Err(ToolError::ExecutableNotFound),
    }
}

/// Replacing the command of a value with the first present well-known
/// location, leaving it as it stands when none is present.
pub trait SetCommandExt: Sized {
    /// The relation between the value before and after the replacement.
    spec fn located(pre: Self, post: Self, candidates: Seq<Seq<char>>, present: Seq<bool>) -> bool;

    /// Replaces the command by the first present candidate, or keeps the
    /// value unchanged so that the bare command name is still tried on the
    /// process search path.
    fn locate_command(self, candidates: &Vec<String>, present: &Vec<bool>) -> (r: Self)
        requires
            candidates@.len() == present@.len(),
        ensures
            Self::located(self, r, views(candidates@), present@),
    ;
}

impl SetCommandExt for Invocation {
    open spec fn located(
        pre: Invocation,
        post: Invocation,
        candidates: Seq<Seq<char>>,
        present: Seq<bool>,
    ) -> bool {
        &&& post.globals == pre.globals
        &&& post.inputs == pre.inputs
        &&& post.outputs == pre.outputs
        &&& (if spec_first_present(present, 0) >= 0 {
            post.command@ == candidates[spec_first_present(present, 0)]
        } else {
            post.command == pre.command
        })
    }

    fn locate_command(self, candidates: &Vec<String>, present: &Vec<bool>) -> (r: Self) {
        match first_present(candidates, present) {
            Some(p) => {
                proof {
                    lemma_first_present_bounds(present@, 0);
                    let k = spec_first_present(present@, 0);
                    assert(views(candidates@)[k] == candidates@[k]@);
                }
                Invocation { command: p, ..self }
            },
            None => self,
        }
    }
}

} // verus!
