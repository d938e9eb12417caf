use vstd::prelude::*;

verus! {

/// The error taxonomy for a transcoding job.
///
/// Fatal kinds abort the job before or at the moment the subprocess would
/// start; `ProcessFailure` carries the diagnostic text captured from the
/// transcoder and, inside a batch, does not abort the remaining segments.
#[derive(Debug)]
pub enum ToolError {
    /// No transcoder binary could be resolved, neither from the well-known
    /// install locations nor as a bare command name.
    ExecutableNotFound,
    /// The job request itself is unusable: a required stream is missing, a
    /// cut-list cannot be parsed, the total target duration is zero, or the
    /// source path has no file stem or extension.
    MalformedJobInput,
    /// The operating system failed to start the subprocess; the payload is a
    /// description of that failure.
    SpawnFailure(String),
    /// The subprocess exited with a non-zero status; the payload is the
    /// captured diagnostic stream.
    ProcessFailure(String),
}

/// The text of an error event, as a function of the error value.
pub open spec fn spec_describe(e: ToolError) -> Seq<char> {
    match e {
        ToolError::ExecutableNotFound => "no transcoder executable could be located"@,
        ToolError::MalformedJobInput => "malformed job input"@,
        ToolError::SpawnFailure(d) => "failed to start the transcoder process: "@ + d@,
        ToolError::ProcessFailure(d) => "transcoder process failed: "@ + d@,
    }
}

impl ToolError {
    /// Human-readable text for the single error event of a failed job.
    pub fn describe(&self) -> (r: String)
        ensures
            r@ == spec_describe(*self),
    {
        match self {
            ToolError::ExecutableNotFound => String::from_str(
                "no transcoder executable could be located",
            ),
            ToolError::MalformedJobInput => String::from_str("malformed job input"),
            ToolError::SpawnFailure(d) => String::from_str(
                "failed to start the transcoder process: ",
            ).concat(d.as_str()),
            ToolError::ProcessFailure(d) => String::from_str("transcoder process failed: ").concat(
                d.as_str(),
            ),
        }
    }
}

} // verus!
