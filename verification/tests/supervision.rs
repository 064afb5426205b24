use ffmpeg_preset_core::command::{ParseCommand, ParseOptions};
use ffmpeg_preset_core::events::{ParseEvent, Summary};
use ffmpeg_preset_core::files::{files_from_nested, FileListError};
use ffmpeg_preset_core::ident::generate_uuid;
use ffmpeg_preset_core::path::{ensure_unix_path, normalize_unix_path};
use ffmpeg_preset_core::registry::TaskRegistry;
use ffmpeg_preset_core::session::{ParseSession, TaskOptions};

fn demo_command() -> ParseCommand {
    ParseCommand::build(ParseOptions {
        command: String::from("/usr/bin/bash"),
        bash_file: String::from("/opt/scripts/low-video.bash"),
        gpu: false,
        resize: None,
        bitrate: None,
        files: vec![(String::from("video1.mp4"), None)],
    })
}

#[test]
fn end_to_end_successful_job() {
    let mut registry = TaskRegistry::new();
    let (mut session, started) = ParseSession::begin(
        &mut registry,
        String::from("job-1"),
        4242,
        demo_command(),
        TaskOptions { need_std_output: None },
    )
    .expect("fresh id must register");

    assert_eq!(
        started,
        ParseEvent::Started { id: String::from("job-1") }
    );
    assert_eq!(registry.len(), 1);

    // the duration declaration emits nothing but arms the aggregator
    let evs = session.on_stderr_line(
        &mut registry,
        " Duration: 00:00:10.00, start: 0.000000, bitrate: 11441 kb/s",
    );
    assert!(evs.is_empty());

    // rising elapsed positions emit rising percentages
    let evs = session.on_stderr_line(
        &mut registry,
        "frame=1 fps=1 q=1.0 size=1kB time=00:00:02.50 bitrate=1.0kbits/s",
    );
    assert_eq!(
        evs,
        vec![ParseEvent::PercentProgress { id: String::from("job-1"), percent: 25 }]
    );

    // the same position again is suppressed
    let evs = session.on_stderr_line(
        &mut registry,
        "frame=2 fps=1 q=1.0 size=1kB time=00:00:02.50 bitrate=1.0kbits/s",
    );
    assert!(evs.is_empty());

    // a noisy lower position never makes the percentage regress
    let evs = session.on_stderr_line(
        &mut registry,
        "frame=3 fps=1 q=1.0 size=1kB time=00:00:01.00 bitrate=1.0kbits/s",
    );
    assert!(evs.is_empty());

    // elapsed past the declared duration clamps to 100
    let evs = session.on_stderr_line(
        &mut registry,
        "frame=4 fps=1 q=1.0 size=1kB time=00:00:12.00 bitrate=1.0kbits/s",
    );
    assert_eq!(
        evs,
        vec![ParseEvent::PercentProgress { id: String::from("job-1"), percent: 100 }]
    );

    // stdout carries the per-file events and the summary record
    let evs = session.on_stdout_line("Converting video1.mp4 ===> video1.low.mp4");
    assert_eq!(evs.len(), 1);
    let evs = session.on_stdout_line(
        "Input: video1.mp4, Size: 10.00 MB ===> Output: video1.low.mp4, Size: 4.00 MB, 6.00 MB smaller than origin",
    );
    assert!(evs.is_empty());

    let finished = session.finish(&mut registry, Some(0));
    assert_eq!(
        finished,
        ParseEvent::Finished {
            id: String::from("job-1"),
            success: true,
            summaries: vec![Summary {
                source: String::from("video1.mp4"),
                source_size: String::from("10.00 MB"),
                target: String::from("video1.low.mp4"),
                target_size: String::from("4.00 MB"),
                reduce_size: String::from("6.00 MB"),
            }],
        }
    );
    assert_eq!(registry.len(), 0);
}

#[test]
fn terminating_unknown_id_changes_nothing() {
    let mut registry = TaskRegistry::new();
    let (_session, _started) = ParseSession::begin(
        &mut registry,
        String::from("job-1"),
        77,
        demo_command(),
        TaskOptions { need_std_output: None },
    )
    .expect("fresh id must register");

    let to_kill = registry.pids_for_task("no-such-id");
    assert!(to_kill.is_empty());
    assert_eq!(registry.len(), 1);
    assert_eq!(registry.pids_for_task("job-1"), vec![String::from("77")]);
}

#[test]
fn nonzero_exit_code_is_failure() {
    let mut registry = TaskRegistry::new();
    let (session, _started) = ParseSession::begin(
        &mut registry,
        String::from("job-2"),
        7,
        demo_command(),
        TaskOptions { need_std_output: Some(false) },
    )
    .expect("fresh id must register");
    let finished = session.finish(&mut registry, Some(3));
    assert_eq!(
        finished,
        ParseEvent::Finished { id: String::from("job-2"), success: false, summaries: vec![] }
    );
}

#[test]
fn raw_passthrough_echoes_lines() {
    let mut registry = TaskRegistry::new();
    let (mut session, _started) = ParseSession::begin(
        &mut registry,
        String::from("job-3"),
        9,
        demo_command(),
        TaskOptions { need_std_output: Some(true) },
    )
    .expect("fresh id must register");

    let evs = session.on_stdout_line("some unparseable line");
    assert_eq!(evs.len(), 1);
    let evs = session.on_stderr_line(&mut registry, "other noise");
    assert_eq!(evs.len(), 1);
}

#[test]
fn duplicate_id_is_refused() {
    let mut registry = TaskRegistry::new();
    let first = ParseSession::begin(
        &mut registry,
        String::from("twin"),
        1,
        demo_command(),
        TaskOptions { need_std_output: None },
    );
    assert!(first.is_some());
    let second = ParseSession::begin(
        &mut registry,
        String::from("twin"),
        2,
        demo_command(),
        TaskOptions { need_std_output: None },
    );
    assert!(second.is_none());
    assert_eq!(registry.len(), 1);
}

#[test]
fn registry_snapshots_all_pids() {
    let mut registry = TaskRegistry::new();
    for (id, pid) in [("a", 10u32), ("b", 20), ("c", 30)] {
        ParseSession::begin(
            &mut registry,
            String::from(id),
            pid,
            demo_command(),
            TaskOptions { need_std_output: None },
        )
        .expect("fresh id must register");
    }
    assert_eq!(registry.pids(), vec![10, 20, 30]);
}

#[test]
fn drive_letter_paths_normalize_to_lowercase_roots() {
    assert_eq!(ensure_unix_path("E:\\videos\\video1.mp4"), "/e/videos/video1.mp4");
    assert_eq!(
        ensure_unix_path("C:\\path\\with\\a space\\video2.mp4"),
        "/c/path/with/a\\ space/video2.mp4"
    );
    // a native path with backslashes is not slash-converted
    assert_eq!(ensure_unix_path("/plain/pa\\th/file.mp4"), "/plain/pa\\th/file.mp4");
    // only a single leading letter makes a drive prefix
    assert_eq!(ensure_unix_path("ab:\\x"), "ab:\\x");
    assert_eq!(ensure_unix_path("7:\\x"), "7:\\x");
}

#[test]
fn escaping_marks_every_special_character_once() {
    assert_eq!(normalize_unix_path("a b(c)d&e"), "a\\ b\\(c\\)d\\&e");
    assert_eq!(normalize_unix_path("plain"), "plain");
    assert_eq!(normalize_unix_path(""), "");
}

#[test]
fn file_list_validation_reports_first_bad_entry() {
    let good = vec![
        vec![Some(String::from("a.mp4"))],
        vec![Some(String::from("b.mp4")), Some(String::from("b.low.mp4"))],
        vec![Some(String::from("c.mp4")), None],
    ];
    assert_eq!(
        files_from_nested(&good),
        Ok(vec![
            (String::from("a.mp4"), None),
            (String::from("b.mp4"), Some(String::from("b.low.mp4"))),
            (String::from("c.mp4"), None),
        ])
    );

    let empty_entry: Vec<Vec<Option<String>>> = vec![vec![]];
    assert_eq!(files_from_nested(&empty_entry), Err(FileListError::EmptyEntry));

    let too_many = vec![vec![
        Some(String::from("a")),
        Some(String::from("b")),
        Some(String::from("c")),
    ]];
    assert_eq!(files_from_nested(&too_many), Err(FileListError::TooManyElements));

    let null_first: Vec<Vec<Option<String>>> = vec![vec![None]];
    assert_eq!(files_from_nested(&null_first), Err(FileListError::NullFirst));

    let error_comes_from_first_bad = vec![vec![Some(String::from("ok.mp4"))], vec![], vec![None]];
    assert_eq!(
        files_from_nested(&error_comes_from_first_bad),
        Err(FileListError::EmptyEntry)
    );
}

#[test]
fn generated_ids_are_compact_tokens() {
    let a = generate_uuid();
    let b = generate_uuid();
    assert_eq!(a.len(), 22);
    assert_eq!(b.len(), 22);
    assert_ne!(a, b);
    for c in a.chars().chain(b.chars()) {
        assert!(c.is_ascii_alphanumeric() || c == '-' || c == '_');
    }
}
