//! The filename formatter: substitutes the recognized placeholders
//! `{title}`, `{track_nr}` and `{track_title}` into a naming template and
//! sanitizes the result into a filesystem-safe name.
use crate::text::push_all;
use crate::text::range_eq_str;
use vstd::prelude::*;

verus! {

/// True for the characters that survive filename sanitization unchanged:
/// ASCII digits, ASCII letters, `.` and `-`.
pub open spec fn is_safe_char(c: char) -> bool {
    ||| 48 <= c as u32 <= 57
    ||| 65 <= c as u32 <= 90
    ||| 97 <= c as u32 <= 122
    ||| c == '.'
    ||| c == '-'
}

/// A character after sanitization: safe characters are kept, everything
/// else becomes an underscore.
pub open spec fn sanitize_char(c: char) -> char {
    if is_safe_char(c) {
        c
    } else {
        '_'
    }
}

/// A whole name after sanitization, character by character.
pub open spec fn spec_sanitize(s: Seq<char>) -> Seq<char> {
    s.map_values(|c: char| sanitize_char(c))
}

/// Replaces every character outside `0-9`, `A-Z`, `a-z`, `.`, `-` with `_`,
/// so the result is a filesystem-safe file name on any platform.
pub fn sanitize(v: &Vec<char>) -> (r: Vec<char>)
    ensures
        r@ == spec_sanitize(v@),
{
    let mut r: Vec<char> = Vec::new();
    let mut i: usize = 0;
    while i < v.len()
        invariant
            i <= v.len(),
            r@ == spec_sanitize(v@.take(i as int)),
        decreases v.len() - i,
    {
        let c = v[i];
        let u = c as u32;
        if (48 <= u && u <= 57) || (65 <= u && u <= 90) || (97 <= u && u <= 122) || c == '.' || c
            == '-' {
            r.push(c);
        } else {
            r.push('_');
        }
        i = i + 1;
        proof {
            assert(v@.take(i as int).map_values(|c: char| sanitize_char(c)) =~= v@.take(
                i - 1,
            ).map_values(|c: char| sanitize_char(c)).push(sanitize_char(v@[i - 1])));
        }
    }
    proof {
        assert(v@.take(v@.len() as int) =~= v@);
    }
    r
}

/// Sanitization is idempotent: a name that has already been sanitized is
/// left unchanged by a second pass.
pub proof fn lemma_sanitize_idempotent(s: Seq<char>)
    ensures
        spec_sanitize(spec_sanitize(s)) == spec_sanitize(s),
{
    assert(spec_sanitize(spec_sanitize(s)) =~= spec_sanitize(s));
}

/// How many characters stand before the next `}`, looking from `i` on:
/// the distance to the first `}` at or after `i`, or to the end of the
/// template if there is none.
pub open spec fn brace_skip(t: Seq<char>, i: int) -> nat
    decreases t.len() - i,
{
    if i >= t.len() {
        0
    } else if t[i] == '}' {
        0
    } else {
        1 + brace_skip(t, i + 1)
    }
}

/// What the skip guarantees: it stays inside the template, it lands on a
/// `}` when one exists, and it jumps over no `}`.
pub proof fn lemma_brace_skip(t: Seq<char>, i: int)
    requires
        0 <= i <= t.len(),
    ensures
        i + brace_skip(t, i) <= t.len(),
        i + brace_skip(t, i) < t.len() ==> t[i + brace_skip(t, i)] == '}',
        forall|k: int| i <= k < i + brace_skip(t, i) ==> t[k] != '}',
    decreases t.len() - i,
{
    if i < t.len() && t[i] != '}' {
        lemma_brace_skip(t, i + 1);
    }
}

/// A stretch with no `}` up to position `j`, which holds one (or is the
/// end), pins the skip down exactly.
pub proof fn lemma_brace_skip_determined(t: Seq<char>, i: int, j: int)
    requires
        0 <= i <= j <= t.len(),
        forall|m: int| i <= m < j ==> t[m] != '}',
        j < t.len() ==> t[j] == '}',
    ensures
        i + brace_skip(t, i) == j,
    decreases j - i,
{
    if i < j {
        lemma_brace_skip_determined(t, i + 1, j);
    }
}

/// The text substituted for a placeholder key, or nothing if the key is
/// not one of the three recognized placeholders.
pub open spec fn placeholder_value(
    key: Seq<char>,
    title: Seq<char>,
    track: Seq<char>,
    track_title: Seq<char>,
) -> Option<Seq<char>> {
    if key == "title"@ {
        Some(title)
    } else if key == "track_nr"@ {
        Some(track)
    } else if key == "track_title"@ {
        Some(track_title)
    } else {
        None
    }
}

/// Whether a placeholder key is one of the three recognized ones.
pub open spec fn recognized_key(key: Seq<char>) -> bool {
    key == "title"@ || key == "track_nr"@ || key == "track_title"@
}

/// The result of substituting the placeholder values into the template
/// from position `i` on: every `{key}` becomes the key's value, ordinary
/// characters are kept, and an unrecognized key, an unclosed `{` or a
/// stray `}` make the whole substitution fail.
pub open spec fn spec_subst_from(
    t: Seq<char>,
    title: Seq<char>,
    track: Seq<char>,
    track_title: Seq<char>,
    i: int,
) -> Option<Seq<char>>
    decreases t.len() - i,
{
    if i < 0 || i >= t.len() {
        Some(Seq::empty())
    } else if t[i] == '{' {
        let j = i + 1 + brace_skip(t, i + 1);
        if j < t.len() {
            match placeholder_value(t.subrange(i + 1, j), title, track, track_title) {
                Some(v) => match spec_subst_from(t, title, track, track_title, j + 1) {
                    Some(rest) => Some(v + rest),
                    None => None,
                },
                None => None,
            }
        } else {
            None
        }
    } else if t[i] == '}' {
        None
    } else {
        match spec_subst_from(t, title, track, track_title, i + 1) {
            Some(rest) => Some(seq![t[i]] + rest),
            None => None,
        }
    }
}

/// The result of substituting the placeholder values into the whole
/// template.
pub open spec fn spec_subst(
    t: Seq<char>,
    title: Seq<char>,
    track: Seq<char>,
    track_title: Seq<char>,
) -> Option<Seq<char>> {
    spec_subst_from(t, title, track, track_title, 0)
}

/// Structural validity of the template from position `i` on: every `{`
/// is closed, every key between braces is recognized, and no `}` stands
/// on its own.
pub open spec fn template_ok_from(t: Seq<char>, i: int) -> bool
    decreases t.len() - i,
{
    if i < 0 || i >= t.len() {
        true
    } else if t[i] == '{' {
        let j = i + 1 + brace_skip(t, i + 1);
        &&& j < t.len()
        &&& recognized_key(t.subrange(i + 1, j))
        &&& template_ok_from(t, j + 1)
    } else if t[i] == '}' {
        false
    } else {
        template_ok_from(t, i + 1)
    }
}

/// Structural validity of the whole template: it uses only recognized
/// placeholders, properly braced.
pub open spec fn template_ok(t: Seq<char>) -> bool {
    template_ok_from(t, 0)
}

/// Substitution succeeds exactly on the structurally valid templates,
/// whatever the substituted values are.
pub proof fn lemma_template_ok_subst(
    t: Seq<char>,
    title: Seq<char>,
    track: Seq<char>,
    track_title: Seq<char>,
    i: int,
)
    ensures
        template_ok_from(t, i) <==> spec_subst_from(t, title, track, track_title, i) is Some,
    decreases t.len() - i,
{
    if i < 0 || i >= t.len() {
    } else if t[i] == '{' {
        let j = i + 1 + brace_skip(t, i + 1);
        if j < t.len() {
            lemma_template_ok_subst(t, title, track, track_title, j + 1);
        }
    } else if t[i] == '}' {
    } else {
        lemma_template_ok_subst(t, title, track, track_title, i + 1);
    }
}

/// Substitutes the three placeholder values into the template, or fails
/// on an unrecognized placeholder, an unclosed `{` or a stray `}`.
pub fn substitute(t: &Vec<char>, title: &Vec<char>, track: &Vec<char>, track_title: &Vec<char>) -> (r:
    Option<Vec<char>>)
    ensures
        (match r {
            Some(out) => spec_subst(t@, title@, track@, track_title@) == Some(out@),
            None => spec_subst(t@, title@, track@, track_title@) is None,
        }),
{
    let ghost tt = t@;
    let mut out: Vec<char> = Vec::new();
    let mut i: usize = 0;
    while i < t.len()
        invariant
            i <= tt.len(),
            tt == t@,
            (match spec_subst_from(tt, title@, track@, track_title@, i as int) {
                Some(rest) => spec_subst_from(tt, title@, track@, track_title@, 0) == Some(
                    out@ + rest,
                ),
                None => spec_subst_from(tt, title@, track@, track_title@, 0) is None,
            }),
        decreases t.len() - i,
    {
        let c = t[i];
        if c == '}' {
            return None;
        } else if c == '{' {
            let mut k: usize = i + 1;
            while k < t.len() && t[k] != '}'
                invariant
                    tt == t@,
                    i + 1 <= k <= tt.len(),
                    forall|m: int| i + 1 <= m < k ==> tt[m] != '}',
                decreases t.len() - k,
            {
                k = k + 1;
            }
            proof {
                lemma_brace_skip_determined(tt, i + 1, k as int);
            }
            if k == t.len() {
                return None;
            }
            let ghost old_out = out@;
            let ghost key = tt.subrange(i + 1, k as int);
            let ghost pv = placeholder_value(key, title@, track@, track_title@);
            if range_eq_str(t, i + 1, k, "title") {
                proof {
                    assert(pv == Some(title@));
                }
                push_all(&mut out, title);
            } else if range_eq_str(t, i + 1, k, "track_nr") {
                proof {
                    assert(pv == Some(track@));
                }
                push_all(&mut out, track);
            } else if range_eq_str(t, i + 1, k, "track_title") {
                proof {
                    assert(pv == Some(track_title@));
                }
                push_all(&mut out, track_title);
            } else {
                proof {
                    assert(pv is None);
                    assert(spec_subst_from(tt, title@, track@, track_title@, i as int) is None);
                }
                return None;
            }
            proof {
                let val = pv->0;
                let next = spec_subst_from(tt, title@, track@, track_title@, k + 1);
                if next is Some {
                    assert(spec_subst_from(tt, title@, track@, track_title@, i as int) == Some(
                        val + next->0,
                    ));
                    assert(old_out + (val + next->0) =~= (old_out + val) + next->0);
                } else {
                    assert(spec_subst_from(tt, title@, track@, track_title@, i as int) is None);
                }
            }
            i = k + 1;
        } else {
            let ghost old_out = out@;
            out.push(c);
            proof {
                let next = spec_subst_from(tt, title@, track@, track_title@, i + 1);
                if next is Some {
                    assert(spec_subst_from(tt, title@, track@, track_title@, i as int) == Some(
                        seq![tt[i as int]] + next->0,
                    ));
                    assert(old_out + (seq![tt[i as int]] + next->0) =~= out@ + next->0);
                } else {
                    assert(spec_subst_from(tt, title@, track@, track_title@, i as int) is None);
                }
            }
            i = i + 1;
        }
    }
    proof {
        assert(spec_subst_from(tt, title@, track@, track_title@, i as int) == Some(
            Seq::<char>::empty(),
        ));
        assert(out@ + Seq::<char>::empty() =~= out@);
    }
    Some(out)
}

/// Whether `s` ends with the given suffix.
pub open spec fn ends_with(s: Seq<char>, suffix: Seq<char>) -> bool {
    s.len() >= suffix.len() && s.subrange(s.len() - suffix.len(), s.len() as int) == suffix
}

/// The template with the `.mp3` suffix appended when it is not already
/// there.
pub open spec fn with_mp3(t: Seq<char>) -> Seq<char> {
    if ends_with(t, ".mp3"@) {
        t
    } else {
        t + ".mp3"@
    }
}

/// Whether the characters end with `.mp3`.
pub fn chars_end_with_mp3(v: &Vec<char>) -> (b: bool)
    ensures
        b == ends_with(v@, ".mp3"@),
{
    proof {
        reveal_strlit(".mp3");
    }
    if v.len() < 4 {
        return false;
    }
    range_eq_str(v, v.len() - 4, v.len(), ".mp3")
}

/// Over a stretch of the template with no brace, substitution copies the
/// characters through unchanged.
pub proof fn lemma_subst_plain(
    t: Seq<char>,
    title: Seq<char>,
    track: Seq<char>,
    track_title: Seq<char>,
    i: int,
    j: int,
)
    requires
        0 <= i <= j <= t.len(),
        forall|m: int| i <= m < j ==> t[m] != '{' && t[m] != '}',
    ensures
        (match spec_subst_from(t, title, track, track_title, j) {
            Some(r) => spec_subst_from(t, title, track, track_title, i) == Some(
                t.subrange(i, j) + r,
            ),
            None => spec_subst_from(t, title, track, track_title, i) is None,
        }),
    decreases j - i,
{
    let after = spec_subst_from(t, title, track, track_title, j);
    if i < j {
        lemma_subst_plain(t, title, track, track_title, i + 1, j);
        if after is Some {
            assert(t.subrange(i, j) + after->0 =~= seq![t[i]] + (t.subrange(i + 1, j) + after->0));
        }
    } else {
        if after is Some {
            assert(t.subrange(i, i) + after->0 =~= after->0);
        }
    }
}

/// A suffix of a concatenation only depends on the right part, when the
/// right part is long enough.
pub proof fn lemma_ends_with_append(a: Seq<char>, b: Seq<char>, suffix: Seq<char>)
    requires
        ends_with(b, suffix),
    ensures
        ends_with(a + b, suffix),
{
    assert((a + b).subrange((a + b).len() - suffix.len(), (a + b).len() as int) =~= b.subrange(
        b.len() - suffix.len(),
        b.len() as int,
    ));
}

/// Substituting into a template that ends with `.mp3` yields a name that
/// ends with `.mp3`: the trailing suffix contains no brace, so it is
/// copied through unchanged.
pub proof fn lemma_subst_preserves_mp3(
    t: Seq<char>,
    title: Seq<char>,
    track: Seq<char>,
    track_title: Seq<char>,
    i: int,
)
    requires
        ends_with(t, ".mp3"@),
        0 <= i <= t.len() - 4,
    ensures
        (match spec_subst_from(t, title, track, track_title, i) {
            Some(s) => ends_with(s, ".mp3"@),
            None => true,
        }),
    decreases t.len() - i,
{
    reveal_strlit(".mp3");
    let n = t.len() as int;
    assert forall|m: int| n - 4 <= m < n implies t[m] != '{' && t[m] != '}' by {
        assert(t[m] == t.subrange(n - 4, n)[m - (n - 4)]);
    }
    let res = spec_subst_from(t, title, track, track_title, i);
    if i == n - 4 {
        lemma_subst_plain(t, title, track, track_title, i, n);
        assert(spec_subst_from(t, title, track, track_title, n) == Some(Seq::<char>::empty()));
        assert(t.subrange(n - 4, n) + Seq::<char>::empty() =~= t.subrange(n - 4, n));
        assert(res == Some(t.subrange(n - 4, n)));
        assert(ends_with(t.subrange(n - 4, n), ".mp3"@)) by {
            assert(t.subrange(n - 4, n).subrange(0, 4) =~= t.subrange(n - 4, n));
        }
    } else if t[i] == '{' {
        let j = i + 1 + brace_skip(t, i + 1);
        lemma_brace_skip(t, i + 1);
        if j < n {
            assert(t[j] == '}');
            assert(j < n - 4);
            let pv = placeholder_value(t.subrange(i + 1, j), title, track, track_title);
            if pv is Some {
                lemma_subst_preserves_mp3(t, title, track, track_title, j + 1);
                let rest = spec_subst_from(t, title, track, track_title, j + 1);
                if rest is Some {
                    lemma_ends_with_append(pv->0, rest->0, ".mp3"@);
                }
            }
        }
    } else if t[i] == '}' {
    } else {
        lemma_subst_preserves_mp3(t, title, track, track_title, i + 1);
        let rest = spec_subst_from(t, title, track, track_title, i + 1);
        if rest is Some {
            lemma_ends_with_append(seq![t[i]], rest->0, ".mp3"@);
        }
    }
}

/// Sanitization keeps a trailing `.mp3` suffix: all four of its
/// characters are safe.
pub proof fn lemma_sanitize_preserves_mp3(s: Seq<char>)
    requires
        ends_with(s, ".mp3"@),
    ensures
        ends_with(spec_sanitize(s), ".mp3"@),
{
    reveal_strlit(".mp3");
    let n = s.len() as int;
    let r = spec_sanitize(s);
    assert forall|k: int| 0 <= k < 4 implies r.subrange(n - 4, n)[k] == ".mp3"@[k] by {
        assert(s[n - 4 + k] == s.subrange(n - 4, n)[k]);
        assert(r[n - 4 + k] == sanitize_char(s[n - 4 + k]));
        if k == 0 {
            assert(sanitize_char('.') == '.');
        } else if k == 1 {
            assert(sanitize_char('m') == 'm');
        } else if k == 2 {
            assert(sanitize_char('p') == 'p');
        } else {
            assert(sanitize_char('3') == '3');
        }
    }
    assert(r.subrange(n - 4, n) =~= ".mp3"@);
}

/// The characters of the default naming template.
pub open spec fn default_format_chars() -> Seq<char> {
    "{title}_{track_nr}.mp3"@
}

/// Substituting into the default template always succeeds and yields
/// title, underscore, track number and the `.mp3` suffix, in that order.
pub proof fn lemma_default_subst(title: Seq<char>, track: Seq<char>, track_title: Seq<char>)
    ensures
        spec_subst(default_format_chars(), title, track, track_title) == Some(
            title + "_"@ + track + ".mp3"@,
        ),
{
    reveal_strlit("{title}_{track_nr}.mp3");
    reveal_strlit("title");
    reveal_strlit("track_nr");
    reveal_strlit("_");
    reveal_strlit(".mp3");
    let t = default_format_chars();
    assert(t.len() == 22);
    assert forall|m: int| 18 <= m < 22 implies t[m] != '{' && t[m] != '}' by {
        if m == 18 {
        } else if m == 19 {
        } else if m == 20 {
        } else {
            assert(m == 21);
        }
    }
    lemma_subst_plain(t, title, track, track_title, 18, 22);
    assert(spec_subst_from(t, title, track, track_title, 22) == Some(Seq::<char>::empty()));
    assert(t.subrange(18, 22) + Seq::<char>::empty() =~= ".mp3"@);
    assert(spec_subst_from(t, title, track, track_title, 18) == Some(".mp3"@));
    assert forall|m: int| 9 <= m < 17 implies t[m] != '}' by {
        if m == 9 {
        } else if m == 10 {
        } else if m == 11 {
        } else if m == 12 {
        } else if m == 13 {
        } else if m == 14 {
        } else if m == 15 {
        } else {
            assert(m == 16);
        }
    }
    lemma_brace_skip_determined(t, 9, 17);
    assert(t.subrange(9, 17) =~= "track_nr"@);
    assert(spec_subst_from(t, title, track, track_title, 8) == Some(track + ".mp3"@));
    assert forall|m: int| 7 <= m < 8 implies t[m] != '{' && t[m] != '}' by {
        assert(m == 7);
    }
    lemma_subst_plain(t, title, track, track_title, 7, 8);
    assert(t.subrange(7, 8) + (track + ".mp3"@) =~= "_"@ + track + ".mp3"@);
    assert(spec_subst_from(t, title, track, track_title, 7) == Some("_"@ + track + ".mp3"@));
    assert forall|m: int| 1 <= m < 6 implies t[m] != '}' by {
        if m == 1 {
        } else if m == 2 {
        } else if m == 3 {
        } else if m == 4 {
        } else {
            assert(m == 5);
        }
    }
    lemma_brace_skip_determined(t, 1, 6);
    assert(t.subrange(1, 6) =~= "title"@);
    assert(spec_subst_from(t, title, track, track_title, 0) == Some(
        title + ("_"@ + track + ".mp3"@),
    ));
    assert(title + ("_"@ + track + ".mp3"@) =~= title + "_"@ + track + ".mp3"@);
}

/// The formatted file name before joining it onto the output folder: the
/// template (with `.mp3` appended if missing) with its placeholders
/// substituted, or the default template's substitution if that fails,
/// sanitized either way.
pub open spec fn spec_output_name(
    fmt: Seq<char>,
    title: Seq<char>,
    track: Seq<char>,
    track_title: Seq<char>,
) -> Seq<char> {
    match spec_subst(with_mp3(fmt), title, track, track_title) {
        Some(s) => spec_sanitize(s),
        None => match spec_subst(default_format_chars(), title, track, track_title) {
            Some(s) => spec_sanitize(s),
            None => Seq::empty(),
        },
    }
}

/// Whatever the template was, `with_mp3` of it ends with `.mp3`.
pub proof fn lemma_with_mp3_ends(t: Seq<char>)
    ensures
        ends_with(with_mp3(t), ".mp3"@),
        with_mp3(t).len() >= 4,
{
    reveal_strlit(".mp3");
    if !ends_with(t, ".mp3"@) {
        assert(ends_with(".mp3"@, ".mp3"@)) by {
            assert(".mp3"@.subrange(0, 4) =~= ".mp3"@);
        }
        lemma_ends_with_append(t, ".mp3"@, ".mp3"@);
    }
}

/// Formats the output file name: appends `.mp3` to the template when
/// missing, substitutes the placeholders (falling back to the default
/// template on failure) and sanitizes the result.
pub fn format_file_name(
    fmt: &Vec<char>,
    title: &Vec<char>,
    track: &Vec<char>,
    track_title: &Vec<char>,
) -> (r: (Vec<char>, bool))
    ensures
        r.0@ == spec_output_name(fmt@, title@, track@, track_title@),
        r.1 == (spec_subst(with_mp3(fmt@), title@, track@, track_title@) is Some),
        ends_with(r.0@, ".mp3"@),
{
    let mut full: Vec<char> = Vec::new();
    push_all(&mut full, fmt);
    if !chars_end_with_mp3(fmt) {
        let suffix = crate::text::str_to_chars(".mp3");
        push_all(&mut full, &suffix);
    }
    proof {
        assert(full@ == with_mp3(fmt@));
        lemma_with_mp3_ends(fmt@);
    }
    match substitute(&full, title, track, track_title) {
        Some(name) => {
            proof {
                lemma_subst_preserves_mp3(full@, title@, track@, track_title@, 0);
                lemma_sanitize_preserves_mp3(name@);
            }
            (sanitize(&name), true)
        },
        None => {
            let def = crate::text::str_to_chars(crate::DEFAULT_FORMAT);
            proof {
                assert(def@ == default_format_chars());
                lemma_default_subst(title@, track@, track_title@);
            }
            match substitute(&def, title, track, track_title) {
                Some(name) => {
                    proof {
                        reveal_strlit(".mp3");
                        assert(ends_with(".mp3"@, ".mp3"@)) by {
                            assert(".mp3"@.subrange(0, 4) =~= ".mp3"@);
                        }
                        lemma_ends_with_append(title@ + "_"@ + track@, ".mp3"@, ".mp3"@);
                        assert((title@ + "_"@ + track@) + ".mp3"@ =~= title@ + "_"@ + track@
                            + ".mp3"@);
                        lemma_sanitize_preserves_mp3(name@);
                    }
                    (sanitize(&name), false)
                },
                None => {
                    proof {
                        assert(false);
                    }
                    (Vec::new(), false)
                },
            }
        },
    }
}

/// For every template that uses only the recognized placeholders,
/// formatting succeeds without falling back, and the formatted name ends
/// with `.mp3`.
pub proof fn lemma_valid_template_formats(
    fmt: Seq<char>,
    title: Seq<char>,
    track: Seq<char>,
    track_title: Seq<char>,
)
    requires
        template_ok(with_mp3(fmt)),
    ensures
        spec_subst(with_mp3(fmt), title, track, track_title) is Some,
        spec_output_name(fmt, title, track, track_title) == spec_sanitize(
            spec_subst(with_mp3(fmt), title, track, track_title)->0,
        ),
        ends_with(spec_output_name(fmt, title, track, track_title), ".mp3"@),
{
    lemma_template_ok_subst(with_mp3(fmt), title, track, track_title, 0);
    lemma_with_mp3_ends(fmt);
    lemma_subst_preserves_mp3(with_mp3(fmt), title, track, track_title, 0);
    lemma_sanitize_preserves_mp3(spec_subst(with_mp3(fmt), title, track, track_title)->0);
}

/// For every template — in particular one that references an
/// unrecognized placeholder, on which substitution fails — the fallback
/// to the default template succeeds, so formatting always produces a
/// name.
pub proof fn lemma_fallback_succeeds(
    fmt: Seq<char>,
    title: Seq<char>,
    track: Seq<char>,
    track_title: Seq<char>,
)
    ensures
        spec_subst(default_format_chars(), title, track, track_title) == Some(
            title + "_"@ + track + ".mp3"@,
        ),
        spec_subst(with_mp3(fmt), title, track, track_title) is None ==> spec_output_name(
            fmt,
            title,
            track,
            track_title,
        ) == spec_sanitize(title + "_"@ + track + ".mp3"@),
{
    lemma_default_subst(title, track, track_title);
}

/// A file name joined onto a folder, with exactly one `/` between them
/// (none when the folder is empty or already ends with one).
pub open spec fn spec_join_path(folder: Seq<char>, name: Seq<char>) -> Seq<char> {
    if folder.len() == 0 {
        name
    } else if folder.last() == '/' {
        folder + name
    } else {
        folder + "/"@ + name
    }
}

} // verus!
