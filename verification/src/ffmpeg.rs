//! The transcode job description handed to the external `ffmpeg` tool:
//! the exact command-line arguments for one chapter, and the parsing of
//! the tool's `-version` output.  Running the tool itself happens outside
//! the library.
use crate::text::dec_seq;
use crate::text::is_digit_char;
use crate::text::range_eq_str;
use crate::text::str_to_chars;
use crate::text::sub_chars;
use crate::text::u32_to_string;
use vstd::prelude::*;
use vstd::string::StringExecFns;

verus! {

/// Everything one transcode job needs: the decryption credential, the
/// chapter's time window and metadata, the quality setting and the two
/// file paths.
#[derive(Debug)]
pub struct FfmpegOptions {
    pub activation_bytes: String,
    pub start: String,
    pub end: String,
    pub title: String,
    pub track_nr: u32,
    pub quality: u8,
    pub input_file: String,
    pub output_file: String,
}

/// The wrapper around the external transcode tool.  The tool itself runs
/// outside the library; the library fixes the exact arguments it is
/// given.
pub struct FFMPEG;

/// The exact argument list handed to the external transcoder for one
/// job: decrypt with the credential, cut the chapter's time window out
/// of the input, encode it as MP3 at the job's quality, tag it with
/// title and track number, and write it to the job's output path.
pub open spec fn spec_args(o: FfmpegOptions) -> Seq<Seq<char>> {
    seq![
        "-nostdin"@,
        "-v"@,
        "error"@,
        "-activation_bytes"@,
        o.activation_bytes@,
        "-ss"@,
        o.start@,
        "-to"@,
        o.end@,
        "-i"@,
        o.input_file@,
        "-codec:a"@,
        "libmp3lame"@,
        "-qscale:a"@,
        dec_seq(o.quality as nat),
        "-metadata"@,
        "title="@ + o.title@,
        "-metadata"@,
        "track="@ + dec_seq(o.track_nr as nat),
        o.output_file@,
    ]
}

impl FfmpegOptions {
    /// The command-line arguments for this job, in the exact order the
    /// external transcoder is invoked with.
    pub fn to_args(&self) -> (r: Vec<String>)
        ensures
            r@.map_values(|s: String| s@) == spec_args(*self),
    {
        let mut args: Vec<String> = Vec::new();
        args.push(String::from_str("-nostdin"));
        args.push(String::from_str("-v"));
        args.push(String::from_str("error"));
        args.push(String::from_str("-activation_bytes"));
        args.push(self.activation_bytes.clone());
        args.push(String::from_str("-ss"));
        args.push(self.start.clone());
        args.push(String::from_str("-to"));
        args.push(self.end.clone());
        args.push(String::from_str("-i"));
        args.push(self.input_file.clone());
        args.push(String::from_str("-codec:a"));
        args.push(String::from_str("libmp3lame"));
        args.push(String::from_str("-qscale:a"));
        args.push(u32_to_string(self.quality as u32));
        args.push(String::from_str("-metadata"));
        let title_arg = String::from_str("title=");
        args.push(title_arg.concat(self.title.as_str()));
        args.push(String::from_str("-metadata"));
        let track_arg = String::from_str("track=");
        let track_rendered = u32_to_string(self.track_nr);
        args.push(track_arg.concat(track_rendered.as_str()));
        args.push(self.output_file.clone());
        proof {
            assert(args@.map_values(|s: String| s@) =~= spec_args(*self));
        }
        args
    }
}

/// Whether the marker `ffmpeg version ` stands at position `k` of the
/// tool's output, immediately followed by a digit.
pub open spec fn version_matches_at(t: Seq<char>, k: int) -> bool {
    &&& k >= 0
    &&& k + 16 <= t.len()
    &&& t.subrange(k, k + 15) == "ffmpeg version "@
    &&& is_digit_char(t[k + 15])
}

/// The distance from `i` to the first position at or after it where the
/// version marker matches, or to where too few characters are left.
pub open spec fn match_skip(t: Seq<char>, i: int) -> nat
    decreases t.len() - i,
{
    if i + 16 > t.len() {
        0
    } else if version_matches_at(t, i) {
        0
    } else {
        1 + match_skip(t, i + 1)
    }
}

/// A scan that saw no match before `j`, and at `j` either a match or too
/// few characters left, pins the skip down exactly.
pub proof fn lemma_match_skip_determined(t: Seq<char>, i: int, j: int)
    requires
        0 <= i <= j,
        forall|k: int| i <= k < j ==> !version_matches_at(t, k),
        i == j || j + 15 <= t.len(),
        j + 16 > t.len() || version_matches_at(t, j),
    ensures
        i + match_skip(t, i) == j,
    decreases j - i,
{
    if i < j {
        lemma_match_skip_determined(t, i + 1, j);
    }
}

/// The end of the greedy digits-and-dots run that starts at the digit at
/// position `p`: digits continue it, a dot continues it only when a
/// digit follows, and a trailing dot is taken.
pub open spec fn version_end(t: Seq<char>, p: int) -> int
    decreases t.len() - p,
{
    if p + 1 < t.len() && is_digit_char(t[p + 1]) {
        version_end(t, p + 1)
    } else if p + 1 < t.len() && t[p + 1] == '.' {
        if p + 2 < t.len() && is_digit_char(t[p + 2]) {
            version_end(t, p + 2)
        } else {
            p + 2
        }
    } else {
        p + 1
    }
}

/// The version that the tool's `-version` output reports: the
/// digits-and-dots run right after the first `ffmpeg version ` marker
/// that a digit follows, or nothing when no such marker occurs.
pub open spec fn spec_parse_version(t: Seq<char>) -> Option<Seq<char>> {
    let m = match_skip(t, 0) as int;
    if m + 16 <= t.len() {
        Some(t.subrange(m + 15, version_end(t, m + 15)))
    } else {
        None
    }
}

fn version_end_exec(t: &Vec<char>, p: usize) -> (e: usize)
    requires
        p < t@.len(),
    ensures
        e == version_end(t@, p as int),
        p < e <= t@.len(),
    decreases t@.len() - p,
{
    let n = t.len();
    if p + 1 < n && is_digit_exec(t[p + 1]) {
        version_end_exec(t, p + 1)
    } else if p + 1 < n && t[p + 1] == '.' {
        if p + 2 < n && is_digit_exec(t[p + 2]) {
            version_end_exec(t, p + 2)
        } else {
            p + 2
        }
    } else {
        p + 1
    }
}

fn is_digit_exec(c: char) -> (b: bool)
    ensures
        b == is_digit_char(c),
{
    let u = c as u32;
    48 <= u && u <= 57
}

fn version_match_at_exec(t: &Vec<char>, i: usize) -> (b: bool)
    requires
        i + 16 <= t@.len(),
    ensures
        b == version_matches_at(t@, i as int),
{
    let n = t.len();
    range_eq_str(t, i, i + 15, "ffmpeg version ") && i + 15 < n && is_digit_exec(t[i + 15])
}

impl FFMPEG {
    /// Extracts the installed version from what the external tool printed
    /// for `-version`: the digits-and-dots run after the first
    /// `ffmpeg version ` marker that is followed by a digit.
    pub fn parse_version_output(output: &str) -> (r: Option<String>)
        ensures
            (match r {
                Some(v) => spec_parse_version(output@) == Some(v@),
                None => spec_parse_version(output@) is None,
            }),
    {
        let t = str_to_chars(output);
        let n = t.len();
        if n < 16 {
            return None;
        }
        let mut i: usize = 0;
        while i <= n - 16
            invariant
                16 <= n,
                n == t@.len(),
                t@ == output@,
                i <= n,
                forall|k: int| 0 <= k < i ==> !version_matches_at(t@, k),
                i == 0 || i + 15 <= t@.len(),
            decreases n - i,
        {
            if version_match_at_exec(&t, i) {
                proof {
                    lemma_match_skip_determined(t@, 0, i as int);
                }
                let p = i + 15;
                let e = version_end_exec(&t, p);
                let version = sub_chars(&t, p, e);
                return Some(crate::text::chars_to_string(&version));
            }
            i = i + 1;
        }
        proof {
            lemma_match_skip_determined(t@, 0, i as int);
        }
        None
    }
}

} // verus!
