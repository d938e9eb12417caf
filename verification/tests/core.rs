use vtools_core::builder::{encode_bili_hires, extract_audio, flv2mp4};
use vtools_core::error::ToolError;
use vtools_core::invocation::Invocation;
use vtools_core::job::{snapshot_event, BatchJob, FileItem};
use vtools_core::locator::{candidate_paths, find_ffmpeg_executable, OsPlatform, SetCommandExt};
use vtools_core::planner::{percent_for, plan, CutSegment};
use vtools_core::progress::ProgressRecord;

fn seg(name: &str, start_ms: u64, end_ms: Option<u64>) -> CutSegment {
    CutSegment {
        name: String::from(name),
        start_ms,
        end_ms,
    }
}

fn args_of(inv: &Invocation) -> Vec<String> {
    inv.args()
}

fn as_strs(v: &[String]) -> Vec<&str> {
    v.iter().map(|s| s.as_str()).collect()
}

// --- SegmentPlanner ---

#[test]
fn total_duration_is_sum_of_resolved_segments() {
    let segs = vec![
        seg("", 0, Some(10_000)),
        seg("b", 10_000, Some(25_000)),
        seg("c", 25_000, None),
    ];
    let p = plan(&segs, 60_000).unwrap();
    assert_eq!(p.total_ms, 10_000 + 15_000 + 35_000);
    assert_eq!(p.segments.len(), 3);
    assert_eq!(p.segments[2].end_ms, 60_000);
}

#[test]
fn zero_total_duration_is_rejected() {
    let segs = vec![seg("", 0, Some(0))];
    assert!(matches!(plan(&segs, 0), Err(ToolError::MalformedJobInput)));
}

#[test]
fn unordered_segment_is_rejected() {
    let segs = vec![seg("", 20_000, Some(10_000))];
    assert!(matches!(plan(&segs, 0), Err(ToolError::MalformedJobInput)));
}

#[test]
fn open_ended_segment_resolves_to_probed_duration() {
    let segs = vec![seg("tail", 10_000, None)];
    let p = plan(&segs, 30_000).unwrap();
    assert_eq!(p.total_ms, 20_000);
    assert_eq!(p.segments[0].end_ms, 30_000);
}

#[test]
fn percent_formula_exact_value() {
    // floor((10 + 5) / 30 * 100) = 50
    assert_eq!(percent_for(30_000, 10_000, 5_000), 50);
    // floor(1/3 * 100) = 33
    assert_eq!(percent_for(3_000, 0, 1_000), 33);
    assert_eq!(percent_for(1_000, 0, 0), 0);
}

#[test]
fn percent_is_clamped_at_one_hundred() {
    // elapsed far beyond the total still reports 100
    assert_eq!(percent_for(1_000, 0, 50_000), 100);
    assert_eq!(percent_for(1_000, 900, 200), 100);
}

#[test]
fn batch_percent_is_monotone_within_a_segment() {
    let segs = vec![seg("", 0, Some(10_000))];
    let p = plan(&segs, 0).unwrap();
    let mut job = BatchJob::start(p);
    let mut last = 0i8;
    for elapsed in [0u64, 1_000, 2_500, 2_400, 7_000, 20_000] {
        let r = job.on_record(ProgressRecord::Continue(elapsed));
        assert!(r >= last);
        assert!((0..=100).contains(&r));
        last = r;
    }
    assert_eq!(job.on_record(ProgressRecord::End), 100);
}

#[test]
fn cutlist_example_aggregates_across_segments() {
    // segments [{name:"", start:0, end:10}, {name:"intro", start:10}] with a
    // probed duration of 30 s: the total is 10 + (30 - 10) = 30 s
    let segs = vec![seg("", 0, Some(10_000)), seg("intro", 10_000, None)];
    let p = plan(&segs, 30_000).unwrap();
    assert_eq!(p.total_ms, 30_000);
    let mut job = BatchJob::start(p);
    job.on_segment_exit(true, String::new());
    assert_eq!(job.processed_prior_ms, 10_000);
    // 5 s into the second segment: floor((10 + 5) / 30 * 100) = 50
    assert_eq!(job.on_record(ProgressRecord::Continue(5_000)), 50);
}

#[test]
fn failed_segment_does_not_decrease_processed_duration() {
    let segs = vec![seg("", 0, Some(10_000)), seg("b", 10_000, Some(30_000))];
    let p = plan(&segs, 0).unwrap();
    let mut job = BatchJob::start(p);
    job.on_segment_exit(false, String::from("boom"));
    assert_eq!(job.processed_prior_ms, 0);
    assert_eq!(job.error, "boom");
    assert_eq!(job.current, 1);
    // the second segment still reports against the untouched running total
    assert_eq!(job.on_record(ProgressRecord::Continue(15_000)), 50);
    job.on_segment_exit(true, String::new());
    assert_eq!(job.processed_prior_ms, 20_000);
    assert!(job.finished());
}

// --- CommandBuilder ---

#[test]
fn hires_profile_derives_suffixed_output() {
    let p = encode_bili_hires("clip.mp4").unwrap();
    assert_eq!(p.target, "clip-bili_hires.mp4");
    let p2 = encode_bili_hires("videos/clip.mp4").unwrap();
    assert_eq!(p2.target, "videos/clip-bili_hires.mp4");
}

#[test]
fn hires_profile_command_line() {
    let p = encode_bili_hires("clip.mp4").unwrap();
    let args = args_of(&p.invocation);
    assert_eq!(
        as_strs(&args),
        vec![
            "-nostdin", "-v", "warning", "-y", "-i", "clip.mp4", "-vcodec", "copy", "-acodec",
            "flac", "-strict", "-2", "-sample_fmt", "s32", "-ar", "48000", "clip-bili_hires.mp4",
        ]
    );
}

#[test]
fn hires_profile_requires_stem_and_extension() {
    assert!(matches!(
        encode_bili_hires("noextension"),
        Err(ToolError::MalformedJobInput)
    ));
    assert!(matches!(
        encode_bili_hires("dir/"),
        Err(ToolError::MalformedJobInput)
    ));
}

#[test]
fn output_path_derivation_is_deterministic_and_never_the_source() {
    let a = encode_bili_hires("videos/clip.mp4").unwrap();
    let b = encode_bili_hires("videos/clip.mp4").unwrap();
    assert_eq!(a.target, b.target);
    assert_ne!(a.target, "videos/clip.mp4");
    let c = flv2mp4("videos/clip.flv").unwrap();
    let d = flv2mp4("videos/clip.flv").unwrap();
    assert_eq!(c.target, d.target);
    assert_ne!(c.target, "videos/clip.flv");
}

#[test]
fn remux_derives_mp4_beside_source() {
    let p = flv2mp4("a/b.flv").unwrap();
    assert_eq!(p.target, "a/b.mp4");
    let args = args_of(&p.invocation);
    assert_eq!(
        as_strs(&args),
        vec![
            "-nostdin", "-v", "warning", "-y", "-i", "a/b.flv", "-vcodec", "copy", "-acodec",
            "copy", "a/b.mp4",
        ]
    );
}

#[test]
fn remux_refuses_output_colliding_with_source() {
    assert!(matches!(flv2mp4("a/b.mp4"), Err(ToolError::MalformedJobInput)));
}

#[test]
fn audio_extraction_command_line() {
    let p = extract_audio("song.mp4").unwrap();
    assert_eq!(p.target, "song.m4a");
    let args = args_of(&p.invocation);
    assert_eq!(
        as_strs(&args),
        vec![
            "-nostdin", "-v", "warning", "-y", "-i", "song.mp4", "-map", "0:a", "-codec", "copy",
            "song.m4a",
        ]
    );
}

#[test]
fn audio_extraction_refuses_collision() {
    assert!(matches!(
        extract_audio("song.m4a"),
        Err(ToolError::MalformedJobInput)
    ));
}

// --- ExecutableLocator ---

#[test]
fn linux_candidates_are_the_well_known_list() {
    let c = candidate_paths(&OsPlatform::Linux);
    assert_eq!(
        as_strs(&c),
        vec![
            "/usr/local/bin/ffmpeg",
            "/usr/bin/ffmpeg",
            "/bin/ffmpeg",
            "/usr/sbin/ffmpeg",
            "/sbin/ffmpeg",
        ]
    );
    assert_eq!(candidate_paths(&OsPlatform::MacOs).len(), 7);
    assert!(candidate_paths(&OsPlatform::Other).is_empty());
}

#[test]
fn locator_picks_first_present_candidate() {
    let c = candidate_paths(&OsPlatform::Linux);
    let present = vec![false, true, true, false, false];
    assert_eq!(
        find_ffmpeg_executable(&c, &present).unwrap(),
        "/usr/bin/ffmpeg"
    );
    let none = vec![false; 5];
    assert!(matches!(
        find_ffmpeg_executable(&c, &none),
        Err(ToolError::ExecutableNotFound)
    ));
}

#[test]
fn locate_command_replaces_or_keeps_bare_name() {
    let c = candidate_paths(&OsPlatform::Linux);
    let inv = flv2mp4("x.flv").unwrap().invocation;
    let located = inv.locate_command(&c, &vec![false, false, true, false, false]);
    assert_eq!(located.command, "/bin/ffmpeg");
    let inv2 = flv2mp4("x.flv").unwrap().invocation;
    let kept = inv2.locate_command(&c, &vec![false; 5]);
    assert_eq!(kept.command, "ffmpeg");
}

// --- JobReporter ---

#[test]
fn completion_sets_percentage_or_error() {
    let mut f = FileItem {
        name: String::from("n"),
        filepath: String::from("p"),
        uuid: String::from("u"),
        tool: String::from("t"),
        progress: 0,
        error: String::new(),
    };
    f.complete(true, String::from("ignored"));
    assert_eq!(f.progress, 100);
    assert_eq!(f.error, "");
    f.complete(false, String::from("stderr text"));
    assert_eq!(f.error, "stderr text");
}

#[test]
fn snapshot_carries_identity_and_state() {
    let f = FileItem {
        name: String::from("n"),
        filepath: String::from("p"),
        uuid: String::from("u"),
        tool: String::from("t"),
        progress: 0,
        error: String::new(),
    };
    let segs = vec![seg("", 0, Some(1_000))];
    let p = plan(&segs, 0).unwrap();
    let mut job = BatchJob::start(p);
    job.on_record(ProgressRecord::Continue(500));
    let ev = snapshot_event(&f, &job);
    assert_eq!(ev.uuid, "u");
    assert_eq!(ev.progress, 50);
    assert_eq!(ev.error, "");
}

#[test]
fn error_descriptions() {
    assert_eq!(
        ToolError::ProcessFailure(String::from("x")).describe(),
        "transcoder process failed: x"
    );
    assert_eq!(
        ToolError::SpawnFailure(String::from("denied")).describe(),
        "failed to start the transcoder process: denied"
    );
    assert_eq!(ToolError::MalformedJobInput.describe(), "malformed job input");
    assert_eq!(
        ToolError::ExecutableNotFound.describe(),
        "no transcoder executable could be located"
    );
}
