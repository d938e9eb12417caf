use vtools_core::cutlist::{parse_cutlist, prepare_trim};
use vtools_core::error::ToolError;
use vtools_core::job::encode_and_trim;
use vtools_core::planner::CutSegment;
use vtools_core::probe::{select_av, ProbedStream};
use vtools_core::progress::{ProgressParser, ProgressRecord};
use vtools_core::text::{format_sec, parse_sec_ms, parse_u64, u64_to_string};

fn stream(codec_type: &str, codec_name: &str, bit_rate: &str, duration: Option<&str>) -> ProbedStream {
    ProbedStream {
        codec_type: Some(String::from(codec_type)),
        codec_name: Some(String::from(codec_name)),
        bit_rate: Some(String::from(bit_rate)),
        duration: duration.map(String::from),
    }
}

// --- numbers and time text ---

#[test]
fn parse_u64_reads_plain_numerals() {
    assert_eq!(parse_u64("0"), Some(0));
    assert_eq!(parse_u64("123"), Some(123));
    assert_eq!(parse_u64(""), None);
    assert_eq!(parse_u64("12a"), None);
    assert_eq!(parse_u64("99999999999999999999999"), None);
}

#[test]
fn seconds_text_parses_to_milliseconds() {
    assert_eq!(parse_sec_ms("30"), Some(30_000));
    assert_eq!(parse_sec_ms("1.5"), Some(1_500));
    assert_eq!(parse_sec_ms("0.001"), Some(1));
    assert_eq!(parse_sec_ms("1.2345"), Some(1_234));
    assert_eq!(parse_sec_ms(".5"), Some(500));
    assert_eq!(parse_sec_ms("5."), Some(5_000));
    assert_eq!(parse_sec_ms(""), None);
    assert_eq!(parse_sec_ms("."), None);
    assert_eq!(parse_sec_ms("1.2.3"), None);
    assert_eq!(parse_sec_ms("-1"), None);
}

#[test]
fn numbers_render_canonically() {
    assert_eq!(u64_to_string(0), "0");
    assert_eq!(u64_to_string(907), "907");
    assert_eq!(format_sec(10_000), "10");
    assert_eq!(format_sec(10_500), "10.500");
    assert_eq!(format_sec(1_002), "1.002");
    assert_eq!(format_sec(42), "0.042");
}

// --- ProgressParser ---

#[test]
fn progress_stream_decodes_records() {
    let mut p = ProgressParser::new();
    assert_eq!(p.feed_line("frame=10\n"), None);
    assert_eq!(p.feed_line("out_time_us=1500000\n"), None);
    assert_eq!(
        p.feed_line("progress=continue\n"),
        Some(ProgressRecord::Continue(1_500))
    );
    // the pending time resets between records
    assert_eq!(
        p.feed_line("progress=continue\n"),
        Some(ProgressRecord::Continue(0))
    );
    assert_eq!(p.feed_line("out_time_us=2000000\n"), None);
    assert_eq!(p.feed_line("progress=end\n"), Some(ProgressRecord::End));
}

#[test]
fn progress_stream_absorbs_garbage() {
    let mut p = ProgressParser::new();
    assert_eq!(p.feed_line("no separator here\n"), None);
    assert_eq!(p.feed_line("out_time_us=not-a-number\n"), None);
    assert_eq!(p.feed_line("progress=unheard-of\n"), None);
    assert_eq!(p.feed_line("out_time_us=250000\n"), None);
    assert_eq!(
        p.feed_line("progress=continue\n"),
        Some(ProgressRecord::Continue(250))
    );
}

#[test]
fn progress_lines_tolerate_stray_spaces() {
    let mut p = ProgressParser::new();
    assert_eq!(p.feed_line("out_time_us = 1000000\r\n"), None);
    assert_eq!(
        p.feed_line("  progress=continue  \n"),
        Some(ProgressRecord::Continue(1_000))
    );
}

// --- cut-list documents ---

const DEMO_LLC: &str = "{\n\
    // written by an editor\n\
    version: 1,\n\
    mediaFileName: 'clip.mp4',\n\
    cutSegments: [\n\
        { name: '', start: 0, end: 10 },\n\
        { name: 'intro', start: 10.5, },\n\
    ],\n\
}\n";

#[test]
fn cutlist_document_parses() {
    let c = parse_cutlist(DEMO_LLC).unwrap();
    assert_eq!(c.version, 1);
    assert_eq!(c.media_file_name, "clip.mp4");
    assert_eq!(c.segments.len(), 2);
    assert_eq!(c.segments[0].name, "");
    assert_eq!(c.segments[0].start_ms, 0);
    assert_eq!(c.segments[0].end_ms, Some(10_000));
    assert_eq!(c.segments[1].name, "intro");
    assert_eq!(c.segments[1].start_ms, 10_500);
    assert_eq!(c.segments[1].end_ms, None);
}

#[test]
fn cutlist_accepts_double_quotes_block_comments_and_unknown_members() {
    let text = "{ /* header */ \"version\": 2, \"extra\": {\"nested\": [1, true, null]},\n\
        \"mediaFileName\": \"a b.mkv\", \"cutSegments\": [ {\"start\": 1, \"name\": \"x\"} ] }";
    let c = parse_cutlist(text).unwrap();
    assert_eq!(c.version, 2);
    assert_eq!(c.media_file_name, "a b.mkv");
    assert_eq!(c.segments[0].start_ms, 1_000);
}

#[test]
fn cutlist_unescapes_string_values() {
    let text = "{ version: 1, mediaFileName: 'a\\tb\\'c.mp4', cutSegments: [ {name: '', start: 0} ] }";
    let c = parse_cutlist(text).unwrap();
    assert_eq!(c.media_file_name, "a\tb'c.mp4");
}

#[test]
fn cutlist_rejects_malformed_documents() {
    assert!(matches!(parse_cutlist("not a document"), Err(ToolError::MalformedJobInput)));
    assert!(matches!(parse_cutlist(""), Err(ToolError::MalformedJobInput)));
    // a required member is missing
    assert!(matches!(
        parse_cutlist("{ version: 1, cutSegments: [] }"),
        Err(ToolError::MalformedJobInput)
    ));
    // a segment without a start
    assert!(matches!(
        parse_cutlist("{ version: 1, mediaFileName: 'a.mp4', cutSegments: [ {name: 'x'} ] }"),
        Err(ToolError::MalformedJobInput)
    ));
    // trailing garbage after the document
    assert!(matches!(
        parse_cutlist("{ version: 1, mediaFileName: 'a.mp4', cutSegments: [] } trailing"),
        Err(ToolError::MalformedJobInput)
    ));
}

#[test]
fn prepared_trim_resolves_media_beside_the_document() {
    let pt = prepare_trim("/videos/project.llc", DEMO_LLC).unwrap();
    assert_eq!(pt.source, "/videos/clip.mp4");
    let pt2 = prepare_trim("project.llc", DEMO_LLC).unwrap();
    assert_eq!(pt2.source, "clip.mp4");
}

// --- the probe boundary and the whole batch ---

#[test]
fn probe_without_audio_stream_is_malformed_input() {
    let streams = vec![stream("video", "h264", "2500000", Some("30"))];
    assert!(matches!(select_av(&streams), Err(ToolError::MalformedJobInput)));
    let segs = vec![CutSegment { name: String::new(), start_ms: 0, end_ms: Some(10_000) }];
    assert!(matches!(
        encode_and_trim("clip.mp4", &segs, &streams),
        Err(ToolError::MalformedJobInput)
    ));
}

#[test]
fn probe_without_video_duration_is_malformed_input() {
    let streams = vec![
        stream("video", "h264", "2500000", None),
        stream("audio", "aac", "128000", None),
    ];
    assert!(matches!(select_av(&streams), Err(ToolError::MalformedJobInput)));
}

#[test]
fn probe_selects_first_stream_of_each_kind() {
    let streams = vec![
        stream("video", "h264", "2500000", Some("30.5")),
        stream("audio", "aac", "128000", None),
        stream("audio", "mp3", "96000", None),
    ];
    let av = select_av(&streams).unwrap();
    assert_eq!(av.video_codec, "h264");
    assert_eq!(av.audio_codec, "aac");
    assert_eq!(av.audio_bitrate, "128000");
    assert_eq!(av.duration_ms, 30_500);
}

#[test]
fn batch_of_trim_invocations_carries_source_codecs_and_ranges() {
    let streams = vec![
        stream("video", "h264", "2500000", Some("30")),
        stream("audio", "aac", "128000", None),
    ];
    let segs = vec![
        CutSegment { name: String::new(), start_ms: 0, end_ms: Some(10_000) },
        CutSegment { name: String::from("intro"), start_ms: 10_500, end_ms: None },
    ];
    let tb = encode_and_trim("v/clip.mp4", &segs, &streams).unwrap();
    assert_eq!(tb.plans.len(), 2);
    assert_eq!(tb.plans[0].target, "v/clip-segment-1.mp4");
    assert_eq!(tb.plans[1].target, "v/2-intro.mp4");
    let args = tb.plans[1].invocation.args();
    let arg_refs: Vec<&str> = args.iter().map(|s| s.as_str()).collect();
    assert_eq!(
        arg_refs,
        vec![
            "-nostdin", "-v", "warning", "-y", "-ss", "10.500", "-to", "30", "-i", "v/clip.mp4",
            "-vcodec", "h264", "-acodec", "aac", "-b:a", "128000", "-b:v", "2500000",
            "v/2-intro.mp4",
        ]
    );
    assert_eq!(tb.job.plan.total_ms, 10_000 + (30_000 - 10_500));
    assert_eq!(tb.job.current, 0);
    assert_eq!(tb.job.processed_prior_ms, 0);
}

#[test]
fn batch_with_zero_total_is_rejected_before_any_invocation() {
    let streams = vec![
        stream("video", "h264", "2500000", Some("0")),
        stream("audio", "aac", "128000", None),
    ];
    let segs = vec![CutSegment { name: String::new(), start_ms: 0, end_ms: None }];
    assert!(matches!(
        encode_and_trim("clip.mp4", &segs, &streams),
        Err(ToolError::MalformedJobInput)
    ));
}

#[test]
fn segment_name_with_separator_is_rejected() {
    let streams = vec![
        stream("video", "h264", "2500000", Some("30")),
        stream("audio", "aac", "128000", None),
    ];
    let segs = vec![CutSegment { name: String::from("a/b"), start_ms: 0, end_ms: None }];
    assert!(matches!(
        encode_and_trim("clip.mp4", &segs, &streams),
        Err(ToolError::MalformedJobInput)
    ));
}

#[test]
fn cutlist_rejects_fractional_version_and_unclosed_string() {
    assert!(matches!(
        parse_cutlist("{ version: 1.5, mediaFileName: 'a.mp4', cutSegments: [] }"),
        Err(ToolError::MalformedJobInput)
    ));
    assert!(matches!(
        parse_cutlist("{ version: 1, mediaFileName: 'a.mp4, cutSegments: [] }"),
        Err(ToolError::MalformedJobInput)
    ));
}

#[test]
fn cutlist_tolerates_unterminated_trailing_comment() {
    let text = "{ version: 1, mediaFileName: 'a.mp4', cutSegments: [] } // trailing note";
    let c = parse_cutlist(text).unwrap();
    assert_eq!(c.media_file_name, "a.mp4");
    let block = "{ version: 1, mediaFileName: 'a.mp4', cutSegments: [] } /* open";
    assert!(parse_cutlist(block).is_ok());
}
