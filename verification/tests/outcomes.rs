use audible_split::build_jobs;
use audible_split::check;
use audible_split::ffmpeg::FFMPEG;
use audible_split::ffprobe::get_tag;
use audible_split::ffprobe::FFPROBEoutput;
use audible_split::ffprobe::ProbeChapter;
use audible_split::ffprobe::ProbeFormat;
use audible_split::outcome::outcome_from_transcode;
use audible_split::outcome::reduce_outcomes;
use audible_split::outcome::should_run;
use audible_split::outcome::JobOutcome;
use audible_split::outcome::ProgressTracker;
use audible_split::outcome::record_outcomes;
use audible_split::CliError;
use audible_split::RunParameters;

#[test]
fn check_requires_both_tools() {
    assert!(check(Some(String::from("4.1.3")), Some(String::from("4.1.3"))).is_ok());
    assert!(matches!(
        check(None, Some(String::from("4.1.3"))),
        Err(CliError::FfprobeNotFound)
    ));
    assert!(matches!(check(None, None), Err(CliError::FfprobeNotFound)));
    assert!(matches!(
        check(Some(String::from("4.1.3")), None),
        Err(CliError::FfmpegNotFound)
    ));
}

#[test]
fn error_messages() {
    assert_eq!(
        CliError::FfmpegNotFound.message(),
        "CliError: Couldn't find ffmpeg in path"
    );
    assert_eq!(
        CliError::FfprobeNotFound.message(),
        "CliError: Couldn't find ffprobe in path"
    );
    assert_eq!(
        CliError::InvalidVersion(String::from("3.0")).message(),
        "CliError: Version 3.0 not supported"
    );
    assert_eq!(
        CliError::IOError(String::from("boom")).message(),
        "IO Error: boom"
    );
}

#[test]
fn reduce_of_clean_outcomes_is_success() {
    let outcomes = vec![
        JobOutcome::Skipped,
        JobOutcome::Succeeded,
        JobOutcome::Skipped,
    ];
    assert!(reduce_outcomes(&outcomes).is_ok());
    assert!(reduce_outcomes(&Vec::new()).is_ok());
}

#[test]
fn reduce_keeps_first_failure() {
    let outcomes = vec![
        JobOutcome::Succeeded,
        JobOutcome::Failed(String::from("first")),
        JobOutcome::Failed(String::from("second")),
        JobOutcome::Succeeded,
    ];
    match reduce_outcomes(&outcomes) {
        Err(CliError::IOError(detail)) => assert_eq!(detail, "first"),
        other => panic!("expected an IO error, got {:?}", other),
    }
}

#[test]
fn reduce_disposition_is_order_independent() {
    let a = vec![
        JobOutcome::Skipped,
        JobOutcome::Failed(String::from("x")),
        JobOutcome::Succeeded,
    ];
    let b = vec![
        JobOutcome::Succeeded,
        JobOutcome::Skipped,
        JobOutcome::Failed(String::from("x")),
    ];
    assert_eq!(reduce_outcomes(&a).is_ok(), reduce_outcomes(&b).is_ok());
    let c = vec![JobOutcome::Succeeded, JobOutcome::Skipped];
    let d = vec![JobOutcome::Skipped, JobOutcome::Succeeded];
    assert_eq!(reduce_outcomes(&c).is_ok(), reduce_outcomes(&d).is_ok());
}

#[test]
fn transcode_results_become_outcomes() {
    assert!(matches!(
        outcome_from_transcode(Ok(())),
        JobOutcome::Succeeded
    ));
    match outcome_from_transcode(Err(String::from("codec missing"))) {
        JobOutcome::Failed(detail) => assert_eq!(detail, "codec missing"),
        other => panic!("expected a failure, got {:?}", other),
    }
}

#[test]
fn progress_advances_once_per_outcome() {
    let outcomes = vec![
        JobOutcome::Skipped,
        JobOutcome::Succeeded,
        JobOutcome::Failed(String::from("boom")),
    ];
    let mut tracker = ProgressTracker::new(3);
    assert_eq!(tracker.position(), 0);
    assert!(!tracker.is_finished());
    record_outcomes(&mut tracker, &outcomes);
    assert_eq!(tracker.position(), 3);
    assert_eq!(tracker.total(), 3);
    assert!(tracker.is_finished());
}

#[test]
fn existing_output_is_skipped_without_transcoding() {
    let output_exists = true;
    assert!(!should_run(output_exists));
    // The job never reaches the transcoder; it terminates as a skip and
    // still advances the progress counter exactly once.
    let outcome = JobOutcome::Skipped;
    let mut tracker = ProgressTracker::new(1);
    record_outcomes(&mut tracker, &vec![outcome.clone()]);
    assert_eq!(tracker.position(), 1);
    assert!(tracker.is_finished());
    assert!(reduce_outcomes(&vec![outcome]).is_ok());
    assert!(should_run(false));
}

#[test]
fn tag_lookup_finds_first_match() {
    let tags = vec![
        (String::from("artist"), String::from("Someone")),
        (String::from("title"), String::from("QualityLand")),
        (String::from("title"), String::from("Shadowed")),
    ];
    assert_eq!(get_tag(&tags, "title").unwrap().as_str(), "QualityLand");
    assert_eq!(get_tag(&tags, "artist").unwrap().as_str(), "Someone");
    assert!(get_tag(&tags, "album").is_none());
    let empty: Vec<(String, String)> = Vec::new();
    assert!(get_tag(&empty, "title").is_none());
}

#[test]
fn version_is_parsed_from_tool_output() {
    let output = "ffmpeg version 4.1.3 Copyright (c) 2000-2019 the FFmpeg developers\nbuilt with gcc\n";
    assert_eq!(FFMPEG::parse_version_output(output).unwrap(), "4.1.3");
    let second_line = "something else first\nffmpeg version 7.0 built today";
    assert_eq!(FFMPEG::parse_version_output(second_line).unwrap(), "7.0");
    assert!(FFMPEG::parse_version_output("no version here").is_none());
    assert!(FFMPEG::parse_version_output("ffmpeg version N/A").is_none());
    assert!(FFMPEG::parse_version_output("").is_none());
    assert_eq!(FFMPEG::parse_version_output("ffmpeg version 4.").unwrap(), "4.");
}

#[test]
fn jobs_are_built_one_per_chapter() {
    let probe = FFPROBEoutput {
        format: ProbeFormat {
            tags: vec![(String::from("title"), String::from("Test Book"))],
        },
        chapters: vec![
            ProbeChapter {
                start: String::from("0.000000"),
                end: String::from("78.994286"),
                track_nr: 0,
                tags: vec![(String::from("title"), String::from("Chapter 1"))],
            },
            ProbeChapter {
                start: String::from("78.994286"),
                end: String::from("142.000000"),
                track_nr: 1,
                tags: vec![(String::from("title"), String::from("Chapter 2"))],
            },
        ],
    };
    let params = RunParameters {
        input_file: String::from("test.aax"),
        output_folder: String::from("out"),
        activation_bytes: String::from("abcd1234"),
        quality: 6,
        output_format: String::from("{title}_{track_nr}"),
    };
    let jobs = build_jobs(&probe, &params);
    assert_eq!(jobs.len(), 2);
    assert_eq!(jobs[0].track_nr, 1);
    assert_eq!(jobs[0].title, "Chapter 1");
    assert_eq!(jobs[0].output_file, "out/Test_Book_1.mp3");
    assert_eq!(jobs[0].start, "0.000000");
    assert_eq!(jobs[0].end, "78.994286");
    assert_eq!(jobs[0].input_file, "test.aax");
    assert_eq!(jobs[0].activation_bytes, "abcd1234");
    assert_eq!(jobs[0].quality, 6);
    assert_eq!(jobs[1].track_nr, 2);
    assert_eq!(jobs[1].output_file, "out/Test_Book_2.mp3");
}
