//! Character-level helpers shared by the filename formatter, the version
//! parser and the quality validation: conversions between `String` and
//! `Vec<char>`, decimal rendering and decimal parsing.
use vstd::prelude::*;
use vstd::string::StrSliceExecFns;

verus! {

/// Relies on String::push: appends exactly one character at the end.
#[verifier::external_body]
pub(crate) fn push_char(s: &mut String, c: char)
    ensures
        final (s)@ == old(s)@.push(c),
{
    s.push(c)
}

/// Builds the string made of exactly the given characters, in order.
pub fn chars_to_string(v: &Vec<char>) -> (r: String)
    ensures
        r@ == v@,
{
    let mut s = String::new();
    let mut i: usize = 0;
    while i < v.len()
        invariant
            i <= v.len(),
            s@ == v@.take(i as int),
        decreases v.len() - i,
    {
        push_char(&mut s, v[i]);
        i = i + 1;
        proof {
            assert(v@.take(i as int) =~= v@.take(i - 1).push(v@[i - 1]));
        }
    }
    proof {
        assert(v@.take(v@.len() as int) =~= v@);
    }
    s
}

/// The characters of the string, in order.
pub fn str_to_chars(s: &str) -> (r: Vec<char>)
    ensures
        r@ == s@,
{
    let n = s.unicode_len();
    let mut r: Vec<char> = Vec::new();
    let mut i: usize = 0;
    while i < n
        invariant
            n == s@.len(),
            i <= n,
            r@ == s@.take(i as int),
        decreases n - i,
    {
        r.push(s.get_char(i));
        i = i + 1;
        proof {
            assert(s@.take(i as int) =~= s@.take(i - 1).push(s@[i - 1]));
        }
    }
    proof {
        assert(s@.take(n as int) =~= s@);
    }
    r
}

/// Appends all characters of `src` at the end of `out`.
pub fn push_all(out: &mut Vec<char>, src: &Vec<char>)
    ensures
        final (out)@ == old(out)@ + src@,
{
    let mut i: usize = 0;
    while i < src.len()
        invariant
            i <= src.len(),
            out@ == old(out)@ + src@.take(i as int),
        decreases src.len() - i,
    {
        out.push(src[i]);
        i = i + 1;
        proof {
            assert(old(out)@ + src@.take(i as int) =~= (old(out)@ + src@.take(i - 1)).push(
                src@[i - 1],
            ));
        }
    }
    proof {
        assert(old(out)@ + src@.take(src@.len() as int) =~= old(out)@ + src@);
    }
}

/// The characters of `v` between `lo` (inclusive) and `hi` (exclusive).
pub fn sub_chars(v: &Vec<char>, lo: usize, hi: usize) -> (r: Vec<char>)
    requires
        lo <= hi <= v@.len(),
    ensures
        r@ == v@.subrange(lo as int, hi as int),
{
    let mut r: Vec<char> = Vec::new();
    let mut i: usize = lo;
    while i < hi
        invariant
            lo <= i <= hi <= v@.len(),
            r@ == v@.subrange(lo as int, i as int),
        decreases hi - i,
    {
        r.push(v[i]);
        i = i + 1;
        proof {
            assert(v@.subrange(lo as int, i as int) =~= v@.subrange(lo as int, i - 1).push(
                v@[i - 1],
            ));
        }
    }
    r
}

/// Whether the characters of `v` between `lo` (inclusive) and `hi`
/// (exclusive) spell exactly the string `key`.
pub fn range_eq_str(v: &Vec<char>, lo: usize, hi: usize, key: &str) -> (b: bool)
    requires
        lo <= hi <= v@.len(),
    ensures
        b == (v@.subrange(lo as int, hi as int) == key@),
{
    let klen = key.unicode_len();
    if hi - lo != klen {
        proof {
            assert(v@.subrange(lo as int, hi as int).len() != key@.len());
        }
        return false;
    }
    let mut m: usize = 0;
    while m < klen
        invariant
            m <= klen,
            klen == key@.len(),
            lo <= hi <= v@.len(),
            hi - lo == klen,
            forall|k: int| 0 <= k < m ==> v@[lo + k] == key@[k],
        decreases klen - m,
    {
        if v[lo + m] != key.get_char(m) {
            proof {
                assert(v@.subrange(lo as int, hi as int)[m as int] != key@[m as int]);
            }
            return false;
        }
        m = m + 1;
    }
    proof {
        assert(v@.subrange(lo as int, hi as int) =~= key@);
    }
    true
}

/// The character for a single decimal digit.
pub open spec fn digit_char(d: int) -> char {
    if d == 0 {
        '0'
    } else if d == 1 {
        '1'
    } else if d == 2 {
        '2'
    } else if d == 3 {
        '3'
    } else if d == 4 {
        '4'
    } else if d == 5 {
        '5'
    } else if d == 6 {
        '6'
    } else if d == 7 {
        '7'
    } else if d == 8 {
        '8'
    } else {
        '9'
    }
}

/// The decimal rendering of a number, most significant digit first, with
/// no leading zeros (a single `0` for zero).
pub open spec fn dec_seq(n: nat) -> Seq<char>
    decreases n,
{
    if n < 10 {
        seq![digit_char(n as int)]
    } else {
        dec_seq(n / 10).push(digit_char((n % 10) as int))
    }
}

fn digit_of(d: u32) -> (c: char)
    requires
        d < 10,
    ensures
        c == digit_char(d as int),
{
    if d == 0 {
        '0'
    } else if d == 1 {
        '1'
    } else if d == 2 {
        '2'
    } else if d == 3 {
        '3'
    } else if d == 4 {
        '4'
    } else if d == 5 {
        '5'
    } else if d == 6 {
        '6'
    } else if d == 7 {
        '7'
    } else if d == 8 {
        '8'
    } else {
        '9'
    }
}

/// The decimal digits of `n`, as characters.
pub fn u32_dec_chars(n: u32) -> (r: Vec<char>)
    ensures
        r@ == dec_seq(n as nat),
    decreases n,
{
    if n < 10 {
        let mut r: Vec<char> = Vec::new();
        r.push(digit_of(n));
        proof {
            assert(r@ =~= dec_seq(n as nat));
        }
        r
    } else {
        let mut r = u32_dec_chars(n / 10);
        r.push(digit_of(n % 10));
        r
    }
}

/// The decimal rendering of `n` as a string.
pub fn u32_to_string(n: u32) -> (r: String)
    ensures
        r@ == dec_seq(n as nat),
{
    let digits = u32_dec_chars(n);
    chars_to_string(&digits)
}

/// Whether the character is an ASCII decimal digit.
pub open spec fn is_digit_char(c: char) -> bool {
    48 <= c as u32 <= 57
}

/// The numeric value of an ASCII decimal digit character.
pub open spec fn digit_val(c: char) -> int {
    c as u32 - 48
}

/// Whether every character of the sequence is an ASCII decimal digit.
pub open spec fn all_digits(s: Seq<char>) -> bool {
    forall|i: int| 0 <= i < s.len() ==> is_digit_char(s[i])
}

/// The numeric value of a sequence of decimal digit characters, most
/// significant digit first.
pub open spec fn dec_val(s: Seq<char>) -> int
    decreases s.len(),
{
    if s.len() == 0 {
        0
    } else {
        dec_val(s.drop_last()) * 10 + digit_val(s.last())
    }
}

/// The digits of a number, after stripping one optional leading `+` sign.
pub open spec fn unsigned_body(s: Seq<char>) -> Seq<char> {
    if s.len() > 0 && s[0] == '+' {
        s.drop_first()
    } else {
        s
    }
}

/// Whether the string is a decimal number that fits in a `u8`: one
/// optional leading `+`, then at least one digit, with value at most 255.
pub open spec fn parses_to_u8(s: Seq<char>) -> bool {
    let b = unsigned_body(s);
    b.len() > 0 && all_digits(b) && dec_val(b) <= 255
}

pub proof fn lemma_dec_val_nonneg(s: Seq<char>)
    requires
        all_digits(s),
    ensures
        dec_val(s) >= 0,
    decreases s.len(),
{
    if s.len() > 0 {
        assert(all_digits(s.drop_last()));
        lemma_dec_val_nonneg(s.drop_last());
    }
}

/// Extending a digit string on the right never decreases its value.
pub proof fn lemma_dec_val_prefix(s: Seq<char>, k: int)
    requires
        all_digits(s),
        0 <= k <= s.len(),
    ensures
        dec_val(s.take(k)) <= dec_val(s),
    decreases s.len() - k,
{
    if k < s.len() {
        lemma_dec_val_prefix(s, k + 1);
        let t = s.take(k + 1);
        assert(t.drop_last() =~= s.take(k));
        assert(dec_val(t) == dec_val(s.take(k)) * 10 + digit_val(s[k]));
        assert(all_digits(s.take(k)));
        lemma_dec_val_nonneg(s.take(k));
    } else {
        assert(s.take(k) =~= s);
    }
}

/// Parses a decimal `u8` the way the quality option is read from the
/// command line: an optional leading `+`, then decimal digits, rejecting
/// anything else and any value above 255.
pub fn parse_u8(v: &Vec<char>) -> (r: Option<u8>)
    ensures
        match r {
            Some(n) => parses_to_u8(v@) && n as int == dec_val(unsigned_body(v@)),
            None => !parses_to_u8(v@),
        },
{
    let start: usize = if v.len() > 0 && v[0] == '+' {
        1
    } else {
        0
    };
    proof {
        assert(unsigned_body(v@) =~= v@.subrange(start as int, v@.len() as int));
    }
    let ghost b = unsigned_body(v@);
    if start == v.len() {
        return None;
    }
    let mut acc: u32 = 0;
    let mut i: usize = start;
    while i < v.len()
        invariant
            start <= i <= v@.len(),
            b == unsigned_body(v@),
            b == v@.subrange(start as int, v@.len() as int),
            b.len() == v@.len() - start,
            acc as int == dec_val(b.take(i - start)),
            acc <= 255,
            all_digits(b.take(i - start)),
        decreases v.len() - i,
    {
        let c = v[i];
        let u = c as u32;
        let ghost j = i - start;
        proof {
            assert(b[j] == v@.subrange(start as int, v@.len() as int)[j]);
            assert(b[j] == v@[i as int]);
        }
        if !(48 <= u && u <= 57) {
            proof {
                assert(!is_digit_char(b[j]));
                assert(!all_digits(b));
            }
            return None;
        }
        let d = u - 48;
        proof {
            let t = b.take(j + 1);
            assert(t.drop_last() =~= b.take(j));
            assert(t.last() == b[j]);
            assert(dec_val(t) == dec_val(b.take(j)) * 10 + digit_val(b[j]));
            assert(digit_val(b[j]) == d);
            assert(all_digits(t)) by {
                assert(forall|k: int| 0 <= k < j ==> t[k] == #[trigger] b.take(j)[k]);
            }
        }
        if acc > 25 || (acc == 25 && d > 5) {
            proof {
                assert(dec_val(b.take(j + 1)) > 255);
                if all_digits(b) {
                    lemma_dec_val_prefix(b, j + 1);
                    assert(dec_val(b) > 255);
                }
            }
            return None;
        }
        acc = acc * 10 + d;
        i = i + 1;
    }
    proof {
        assert(b.take(v@.len() - start) =~= b);
    }
    Some(acc as u8)
}

} // verus!
