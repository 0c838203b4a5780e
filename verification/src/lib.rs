pub mod ffmpeg;
pub mod ffprobe;
pub mod format;
pub mod outcome;
pub mod text;

use crate::format::spec_join_path;
use crate::format::spec_output_name;
use crate::format::template_ok;
use crate::format::with_mp3;
use crate::text::chars_to_string;
use crate::text::dec_seq;
use crate::text::dec_val;
use crate::text::parse_u8;
use crate::text::parses_to_u8;
use crate::text::push_all;
use crate::text::str_to_chars;
use crate::text::u32_dec_chars;
use crate::text::u32_to_string;
use crate::text::unsigned_body;
use vstd::prelude::*;
use vstd::string::StringExecFns;

verus! {

/// Default format for output filenames.
pub const DEFAULT_FORMAT: &'static str = "{title}_{track_nr}.mp3";

/// An error occurred while calling an external command to do the actual
/// processing.
#[derive(Debug, Clone)]
pub enum CliError {
    FfmpegNotFound,
    FfprobeNotFound,
    InvalidVersion(String),
    IOError(String),
}

impl CliError {
    /// The description of the error, as it is shown to the user.
    pub fn message(&self) -> (r: String)
        ensures
            (match self {
                CliError::FfmpegNotFound => r@ == "CliError: Couldn't find ffmpeg in path"@,
                CliError::FfprobeNotFound => r@ == "CliError: Couldn't find ffprobe in path"@,
                CliError::InvalidVersion(v) => r@ == "CliError: Version "@ + v@ + " not supported"@,
                CliError::IOError(e) => r@ == "IO Error: "@ + e@,
            }),
    {
        match self {
            CliError::FfmpegNotFound => String::from_str("CliError: Couldn't find ffmpeg in path"),
            CliError::FfprobeNotFound => String::from_str(
                "CliError: Couldn't find ffprobe in path",
            ),
            CliError::InvalidVersion(v) => {
                let head = String::from_str("CliError: Version ");
                let with_version = head.concat(v.as_str());
                with_version.concat(" not supported")
            },
            CliError::IOError(e) => {
                let head = String::from_str("IO Error: ");
                head.concat(e.as_str())
            },
        }
    }
}

/// Decides whether the run may start, from the probed versions of the
/// two external tools: both must be installed, and a missing ffprobe is
/// reported before a missing ffmpeg.
pub fn check(ffprobe_version: Option<String>, ffmpeg_version: Option<String>) -> (r: Result<
    (),
    CliError,
>)
    ensures
        r is Ok <==> (ffprobe_version is Some && ffmpeg_version is Some),
        ffprobe_version is None ==> r == Result::<(), CliError>::Err(CliError::FfprobeNotFound),
        (ffprobe_version is Some && ffmpeg_version is None) ==> r == Result::<(), CliError>::Err(
            CliError::FfmpegNotFound,
        ),
{
    if ffprobe_version.is_none() {
        return Err(CliError::FfprobeNotFound);
    }
    if ffmpeg_version.is_none() {
        return Err(CliError::FfmpegNotFound);
    }
    Ok(())
}

/// The parameters of one whole run, as read from the command line.
pub struct RunParameters {
    pub input_file: String,
    pub output_folder: String,
    pub activation_bytes: String,
    pub quality: u8,
    pub output_format: String,
}

impl RunParameters {
    /// The full output path for one chapter: the naming template with
    /// `.mp3` appended if missing, placeholders substituted (falling
    /// back to the default template when that fails), sanitized, and
    /// joined onto the output folder.
    pub fn output_file(&self, title: &str, chapter_nr: u32, chapter_title: &str) -> (r: String)
        ensures
            r@ == spec_join_path(
                self.output_folder@,
                spec_output_name(
                    self.output_format@,
                    title@,
                    dec_seq(chapter_nr as nat),
                    chapter_title@,
                ),
            ),
    {
        let fmt = str_to_chars(self.output_format.as_str());
        let title_chars = str_to_chars(title);
        let track_chars = u32_dec_chars(chapter_nr);
        let chapter_chars = str_to_chars(chapter_title);
        let (name, _substituted) = crate::format::format_file_name(
            &fmt,
            &title_chars,
            &track_chars,
            &chapter_chars,
        );
        let mut joined = str_to_chars(self.output_folder.as_str());
        if joined.len() == 0 {
            return chars_to_string(&name);
        }
        if joined[joined.len() - 1] != '/' {
            joined.push('/');
            proof {
                reveal_strlit("/");
                assert(joined@ =~= self.output_folder@ + "/"@);
            }
        }
        push_all(&mut joined, &name);
        chars_to_string(&joined)
    }

    /// Whether the naming template (with `.mp3` appended if missing)
    /// uses only recognized placeholders, so that formatting never needs
    /// the fallback.
    pub fn template_valid(&self) -> (b: bool)
        ensures
            b == template_ok(with_mp3(self.output_format@)),
    {
        let fmt = str_to_chars(self.output_format.as_str());
        let mut full: Vec<char> = Vec::new();
        push_all(&mut full, &fmt);
        if !crate::format::chars_end_with_mp3(&fmt) {
            let suffix = str_to_chars(".mp3");
            push_all(&mut full, &suffix);
        }
        let empty: Vec<char> = Vec::new();
        let r = crate::format::substitute(&full, &empty, &empty, &empty);
        proof {
            crate::format::lemma_template_ok_subst(full@, empty@, empty@, empty@, 0);
        }
        r.is_some()
    }
}

/// Validates the quality option from the command line: it must be a
/// decimal number between 0 and 9 inclusive.
pub fn validate_config(input: String) -> (r: Result<(), String>)
    ensures
        r is Ok <==> (parses_to_u8(input@) && dec_val(unsigned_body(input@)) <= 9),
        !parses_to_u8(input@) ==> (r matches Err(m) && m@ == "Value \""@ + input@
            + "\" couldn't be parsed to number."@),
        (parses_to_u8(input@) && dec_val(unsigned_body(input@)) > 9) ==> (r matches Err(m) && m@
            == "Value "@ + dec_seq(dec_val(unsigned_body(input@)) as nat)
            + " is not in allowed range of 0..9"@),
{
    let chars = str_to_chars(input.as_str());
    match parse_u8(&chars) {
        Some(nr) => {
            if nr <= 9 {
                Ok(())
            } else {
                let rendered = u32_to_string(nr as u32);
                let head = String::from_str("Value ");
                let with_nr = head.concat(rendered.as_str());
                Err(with_nr.concat(" is not in allowed range of 0..9"))
            }
        },
        None => {
            let head = String::from_str("Value \"");
            let with_input = head.concat(input.as_str());
            Err(with_input.concat("\" couldn't be parsed to number."))
        },
    }
}

/// What the job builder promises of each job, field by field: the run's
/// credential, quality and input path, the chapter's time window, its
/// title tag, the 1-based track number, and the fully formatted output
/// path.
pub open spec fn job_matches(
    j: crate::ffmpeg::FfmpegOptions,
    c: crate::ffprobe::ProbeChapter,
    book_title: Seq<char>,
    p: RunParameters,
) -> bool {
    &&& j.activation_bytes@ == p.activation_bytes@
    &&& j.start@ == c.start@
    &&& j.end@ == c.end@
    &&& j.title@ == crate::ffprobe::spec_tag_value(c.tags@, "title"@)->0
    &&& j.track_nr == c.track_nr + 1
    &&& j.quality == p.quality
    &&& j.input_file@ == p.input_file@
    &&& j.output_file@ == spec_join_path(
        p.output_folder@,
        spec_output_name(
            p.output_format@,
            book_title,
            dec_seq((c.track_nr + 1) as nat),
            crate::ffprobe::spec_tag_value(c.tags@, "title"@)->0,
        ),
    )
}

/// Builds the self-contained transcode job for one chapter: 1-based
/// track number, the chapter's title tag, and the formatted output path.
pub fn build_job(
    chapter: &crate::ffprobe::ProbeChapter,
    book_title: &str,
    params: &RunParameters,
) -> (j: crate::ffmpeg::FfmpegOptions)
    requires
        crate::ffprobe::has_tag(chapter.tags@, "title"@),
        chapter.track_nr < u32::MAX,
    ensures
        job_matches(j, *chapter, book_title@, *params),
{
    let title = match crate::ffprobe::get_tag(&chapter.tags, "title") {
        Some(t) => t.clone(),
        None => {
            proof {
                assert(false);
            }
            String::new()
        },
    };
    let track_nr = chapter.track_nr + 1;
    let output_file = params.output_file(book_title, track_nr, title.as_str());
    crate::ffmpeg::FfmpegOptions {
        activation_bytes: params.activation_bytes.clone(),
        start: chapter.start.clone(),
        end: chapter.end.clone(),
        title,
        track_nr,
        quality: params.quality,
        input_file: params.input_file.clone(),
        output_file,
    }
}

/// Builds one job per chapter, in chapter order: the deduplicated,
/// sanitized job list that the run then fans out.
pub fn build_jobs(probe: &crate::ffprobe::FFPROBEoutput, params: &RunParameters) -> (jobs: Vec<
    crate::ffmpeg::FfmpegOptions,
>)
    requires
        crate::ffprobe::has_tag(probe.format.tags@, "title"@),
        forall|i: int|
            0 <= i < probe.chapters@.len() ==> crate::ffprobe::has_tag(
                #[trigger] probe.chapters@[i].tags@,
                "title"@,
            ),
        forall|i: int|
            0 <= i < probe.chapters@.len() ==> #[trigger] probe.chapters@[i].track_nr < u32::MAX,
    ensures
        jobs@.len() == probe.chapters@.len(),
        forall|i: int|
            0 <= i < jobs@.len() ==> job_matches(
                #[trigger] jobs@[i],
                probe.chapters@[i],
                crate::ffprobe::spec_tag_value(probe.format.tags@, "title"@)->0,
                *params,
            ),
{
    let book_title = match crate::ffprobe::get_tag(&probe.format.tags, "title") {
        Some(t) => t.clone(),
        None => {
            proof {
                assert(false);
            }
            String::new()
        },
    };
    let mut jobs: Vec<crate::ffmpeg::FfmpegOptions> = Vec::new();
    let mut i: usize = 0;
    while i < probe.chapters.len()
        invariant
            i <= probe.chapters@.len(),
            jobs@.len() == i,
            book_title@ == crate::ffprobe::spec_tag_value(probe.format.tags@, "title"@)->0,
            forall|k: int|
                0 <= k < probe.chapters@.len() ==> crate::ffprobe::has_tag(
                    #[trigger] probe.chapters@[k].tags@,
                    "title"@,
                ),
            forall|k: int|
                0 <= k < probe.chapters@.len() ==> #[trigger] probe.chapters@[k].track_nr
                    < u32::MAX,
            forall|k: int|
                0 <= k < i ==> job_matches(
                    #[trigger] jobs@[k],
                    probe.chapters@[k],
                    crate::ffprobe::spec_tag_value(probe.format.tags@, "title"@)->0,
                    *params,
                ),
        decreases probe.chapters.len() - i,
    {
        let job = build_job(&probe.chapters[i], book_title.as_str(), params);
        jobs.push(job);
        i = i + 1;
    }
    jobs
}

} // verus!
