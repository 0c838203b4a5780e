//! The data that the `ffprobe` chapter probe reports for an input file:
//! container-level tags and one descriptor per chapter.  Running the
//! probe and decoding its JSON output happens outside the library; the
//! library receives the decoded values in these types.
use vstd::prelude::*;

verus! {

/// The whole probe report: container-level tags and the ordered list of
/// chapters.
pub struct FFPROBEoutput {
    pub format: ProbeFormat,
    pub chapters: Vec<ProbeChapter>,
}

/// The container-level tags (for a correct run they include "title").
pub struct ProbeFormat {
    pub tags: Vec<(String, String)>,
}

/// One chapter: its start and end timestamps in the probe's native
/// format, its 0-based ordinal, and its tags (for a correct run they
/// include "title").
pub struct ProbeChapter {
    pub start: String,
    pub end: String,
    pub track_nr: u32,
    pub tags: Vec<(String, String)>,
}

/// The wrapper around the external probe tool.  The probe itself runs
/// outside the library; the library works on the report it produced.
pub struct FFPROBE {}

/// The value of the first tag with the given name, if any.
pub open spec fn spec_tag_value(tags: Seq<(String, String)>, key: Seq<char>) -> Option<Seq<char>>
    decreases tags.len(),
{
    if tags.len() == 0 {
        None
    } else if tags[0].0@ == key {
        Some(tags[0].1@)
    } else {
        spec_tag_value(tags.drop_first(), key)
    }
}

/// Whether a tag with the given name is present.
pub open spec fn has_tag(tags: Seq<(String, String)>, key: Seq<char>) -> bool {
    spec_tag_value(tags, key) is Some
}

/// Looks the given tag up, returning the value of its first occurrence.
pub fn get_tag<'a>(tags: &'a Vec<(String, String)>, key: &str) -> (r: Option<&'a String>)
    ensures
        (match r {
            Some(v) => spec_tag_value(tags@, key@) == Some(v@),
            None => spec_tag_value(tags@, key@) is None,
        }),
{
    let mut i: usize = 0;
    proof {
        assert(tags@.skip(0) =~= tags@);
    }
    while i < tags.len()
        invariant
            i <= tags@.len(),
            spec_tag_value(tags@, key@) == spec_tag_value(tags@.skip(i as int), key@),
            forall|k: int| 0 <= k < i ==> tags@[k].0@ != key@,
        decreases tags.len() - i,
    {
        let (name, value) = &tags[i];
        if str_eq(name.as_str(), key) {
            proof {
                let rest = tags@.skip(i as int);
                assert(rest[0] == tags@[i as int]);
                assert(spec_tag_value(rest, key@) == Some(tags@[i as int].1@));
            }
            return Some(value);
        }
        i = i + 1;
        proof {
            let rest = tags@.skip(i - 1);
            assert(rest[0] == tags@[i - 1]);
            assert(rest.drop_first() =~= tags@.skip(i as int));
        }
    }
    proof {
        assert(tags@.skip(i as int) =~= Seq::<(String, String)>::empty());
    }
    None
}

/// Whether two string slices hold the same characters.
pub fn str_eq(a: &str, b: &str) -> (r: bool)
    ensures
        r == (a@ == b@),
{
    let av = crate::text::str_to_chars(a);
    let r = crate::text::range_eq_str(&av, 0, av.len(), b);
    proof {
        assert(av@.subrange(0, av@.len() as int) =~= av@);
    }
    r
}

} // verus!
