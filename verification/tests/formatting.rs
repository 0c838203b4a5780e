use audible_split::ffmpeg::FfmpegOptions;
use audible_split::format::sanitize;
use audible_split::validate_config;
use audible_split::RunParameters;
use audible_split::DEFAULT_FORMAT;
use std::path::Path;

fn params_with_format(folder: &str, format: &str) -> RunParameters {
    RunParameters {
        input_file: String::from("test.aax"),
        output_folder: String::from(folder),
        activation_bytes: String::from("abcd1234"),
        quality: 6,
        output_format: String::from(format),
    }
}

#[test]
fn format_output_file() {
    let out_folder = Path::new("nested").join("out").join("folder");

    let params = RunParameters {
        input_file: String::from("test.aax"),
        output_folder: out_folder.to_str().unwrap().to_string(),
        activation_bytes: String::from("abcd1234"),
        quality: 6,
        output_format: String::from("{title}_{track_nr}.mp4"), // will add .mp3 anyways!
    };

    let out_file = params.output_file("Test Book", 13, "Chapter 13");
    assert_eq!(
        out_file.as_str(),
        out_folder.join("Test_Book_13.mp4.mp3").to_str().unwrap()
    );

    let params = RunParameters {
        output_format: String::from("{track_nr} {track_title} {title}"),
        ..params
    };
    let out_file = params.output_file("Game of Thrones", 121, "Bran the broken");
    assert_eq!(
        out_file.as_str(),
        out_folder
            .join("121_Bran_the_broken_Game_of_Thrones.mp3")
            .to_str()
            .unwrap()
    );
}

/// When given an invalid format parameter, fallback to the default one.
#[test]
fn format_output_fallback() {
    let out_folder = Path::new("path");

    let params = RunParameters {
        input_file: String::from("test.aax"),
        output_folder: out_folder.to_str().unwrap().to_string(),
        activation_bytes: String::from("abcd1234"),
        quality: 6,
        output_format: String::from("{broken}"), // not valid!
    };

    let out_file = params.output_file("Test Book", 13, "Chapter 13");
    assert_eq!(
        out_file.as_str(),
        out_folder.join("Test_Book_13.mp3").to_str().unwrap()
    );
}

#[test]
fn format_appends_mp3_to_valid_templates() {
    let params = params_with_format("out", "{title}");
    assert_eq!(params.output_file("Book", 1, "Intro"), "out/Book.mp3");
    let params = params_with_format("out", "{track_title}");
    assert_eq!(params.output_file("Book", 1, "Intro"), "out/Intro.mp3");
}

#[test]
fn format_keeps_existing_mp3_suffix() {
    let params = params_with_format("out", "{title}.mp3");
    assert_eq!(params.output_file("Book", 1, "Intro"), "out/Book.mp3");
}

#[test]
fn format_with_empty_folder_is_bare_name() {
    let params = params_with_format("", "{title}");
    assert_eq!(params.output_file("Book", 1, "Intro"), "Book.mp3");
}

#[test]
fn format_with_trailing_slash_folder() {
    let params = params_with_format("out/", "{title}");
    assert_eq!(params.output_file("Book", 1, "Intro"), "out/Book.mp3");
}

#[test]
fn format_falls_back_on_stray_braces() {
    let params = params_with_format("out", "{title");
    assert_eq!(params.output_file("My Book", 2, "Ch"), "out/My_Book_2.mp3");
    let params = params_with_format("out", "a}b");
    assert_eq!(params.output_file("My Book", 2, "Ch"), "out/My_Book_2.mp3");
}

#[test]
fn template_validity_matches_fallback_behaviour() {
    assert!(params_with_format("out", "{title}_{track_nr}.mp4").template_valid());
    assert!(params_with_format("out", DEFAULT_FORMAT).template_valid());
    assert!(params_with_format("out", "{track_nr} {track_title} {title}").template_valid());
    assert!(!params_with_format("out", "{broken}").template_valid());
    assert!(!params_with_format("out", "{title").template_valid());
    assert!(!params_with_format("out", "a}b").template_valid());
}

#[test]
fn sanitize_replaces_unsafe_characters() {
    let raw: Vec<char> = "A b/c:9.x-_!".chars().collect();
    let cleaned = sanitize(&raw);
    let expected: Vec<char> = "A_b_c_9.x-__".chars().collect();
    assert_eq!(cleaned, expected);
}

#[test]
fn sanitize_is_idempotent_on_sanitized_names() {
    let raw: Vec<char> = "Test Book: Chapter 1/3".chars().collect();
    let once = sanitize(&raw);
    let twice = sanitize(&once);
    assert_eq!(once, twice);
}

#[test]
fn validate_config_accepts_range() {
    assert!(validate_config(String::from("0")).is_ok());
    assert!(validate_config(String::from("6")).is_ok());
    assert!(validate_config(String::from("9")).is_ok());
    assert!(validate_config(String::from("+7")).is_ok());
    assert!(validate_config(String::from("09")).is_ok());
}

#[test]
fn validate_config_rejects_out_of_range() {
    assert_eq!(
        validate_config(String::from("10")),
        Err(String::from("Value 10 is not in allowed range of 0..9"))
    );
    assert_eq!(
        validate_config(String::from("255")),
        Err(String::from("Value 255 is not in allowed range of 0..9"))
    );
}

#[test]
fn validate_config_rejects_non_numbers() {
    assert_eq!(
        validate_config(String::from("abc")),
        Err(String::from("Value \"abc\" couldn't be parsed to number."))
    );
    assert_eq!(
        validate_config(String::from("")),
        Err(String::from("Value \"\" couldn't be parsed to number."))
    );
    assert_eq!(
        validate_config(String::from("256")),
        Err(String::from("Value \"256\" couldn't be parsed to number."))
    );
    assert_eq!(
        validate_config(String::from("-1")),
        Err(String::from("Value \"-1\" couldn't be parsed to number."))
    );
}

#[test]
fn job_arguments_are_exact() {
    let options = FfmpegOptions {
        activation_bytes: String::from("abcd1234"),
        start: String::from("0.000000"),
        end: String::from("78.994286"),
        title: String::from("Chapter 1"),
        track_nr: 1,
        quality: 6,
        input_file: String::from("test.aax"),
        output_file: String::from("out/Book_1.mp3"),
    };
    let args = options.to_args();
    let expected = vec![
        "-nostdin",
        "-v",
        "error",
        "-activation_bytes",
        "abcd1234",
        "-ss",
        "0.000000",
        "-to",
        "78.994286",
        "-i",
        "test.aax",
        "-codec:a",
        "libmp3lame",
        "-qscale:a",
        "6",
        "-metadata",
        "title=Chapter 1",
        "-metadata",
        "track=1",
        "out/Book_1.mp3",
    ];
    assert_eq!(args, expected);
}

#[test]
fn test_execute() {}

#[test]
fn empty_template_formats_to_bare_suffix() {
    let params = params_with_format("out", "");
    assert_eq!(params.output_file("Book", 1, "Intro"), "out/.mp3");
}

#[test]
fn largest_track_number_is_rendered_in_full() {
    let params = params_with_format("out", "{track_nr}");
    assert_eq!(
        params.output_file("Book", u32::MAX, "Intro"),
        "out/4294967295.mp3"
    );
}
