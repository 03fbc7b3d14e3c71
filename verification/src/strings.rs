//! Character-level string helpers: lexicographic order on character
//! sequences, equality and comparison of `&str` values, and the
//! filename-to-title conversion used by the article list view.

use vstd::prelude::*;
use vstd::string::StrSliceExecFns;

verus! {

/// Lexicographic order on character sequences, comparing Unicode scalar
/// values position by position; a proper prefix sorts before its extensions.
pub open spec fn lex_le(a: Seq<char>, b: Seq<char>) -> bool
    decreases a.len(),
{
    if a.len() == 0 {
        true
    } else if b.len() == 0 {
        false
    } else if a[0] == b[0] {
        lex_le(a.skip(1), b.skip(1))
    } else {
        (a[0] as u32) < (b[0] as u32)
    }
}

/// Any two character sequences are comparable under `lex_le`.
pub proof fn lemma_lex_le_total(a: Seq<char>, b: Seq<char>)
    ensures
        lex_le(a, b) || lex_le(b, a),
    decreases a.len(),
{
    if a.len() != 0 && b.len() != 0 {
        if a[0] == b[0] {
            lemma_lex_le_total(a.skip(1), b.skip(1));
        } else {
            vstd::utf8::char_u32_cast(a[0], a[0] as u32);
            vstd::utf8::char_u32_cast(b[0], b[0] as u32);
        }
    }
}

/// `lex_le` is transitive.
pub proof fn lemma_lex_le_trans(a: Seq<char>, b: Seq<char>, c: Seq<char>)
    requires
        lex_le(a, b),
        lex_le(b, c),
    ensures
        lex_le(a, c),
    decreases a.len(),
{
    if a.len() != 0 && b.len() != 0 && c.len() != 0 {
        if a[0] == b[0] && b[0] == c[0] {
            lemma_lex_le_trans(a.skip(1), b.skip(1), c.skip(1));
        }
    }
}

/// Dropping one equal leading character on both sides keeps `lex_le` unchanged.
proof fn lemma_lex_le_skip_eq_head(a: Seq<char>, b: Seq<char>)
    requires
        a.len() != 0,
        b.len() != 0,
        a[0] == b[0],
    ensures
        lex_le(a, b) == lex_le(a.skip(1), b.skip(1)),
{
}

/// Compares two strings in the order given by [`lex_le`].
pub fn str_le(a: &str, b: &str) -> (r: bool)
    ensures
        r == lex_le(a@, b@),
{
    let a_len = a.unicode_len();
    let b_len = b.unicode_len();
    let mut i: usize = 0;
    proof {
        assert(a@.skip(0) =~= a@);
        assert(b@.skip(0) =~= b@);
    }
    loop
        invariant
            i <= a_len,
            i <= b_len,
            a_len == a@.len(),
            b_len == b@.len(),
            lex_le(a@, b@) == lex_le(a@.skip(i as int), b@.skip(i as int)),
        decreases a_len - i,
    {
        if i >= a_len {
            return true;
        }
        if i >= b_len {
            return false;
        }
        let ca = a.get_char(i);
        let cb = b.get_char(i);
        if ca != cb {
            return (ca as u32) < (cb as u32);
        }
        proof {
            lemma_lex_le_skip_eq_head(a@.skip(i as int), b@.skip(i as int));
            assert(a@.skip(i as int).skip(1) =~= a@.skip(i + 1));
            assert(b@.skip(i as int).skip(1) =~= b@.skip(i + 1));
        }
        i = i + 1;
    }
}

/// Tests two strings for equality of their character sequences.
pub fn str_eq(a: &str, b: &str) -> (r: bool)
    ensures
        r == (a@ == b@),
{
    let a_len = a.unicode_len();
    let b_len = b.unicode_len();
    if a_len != b_len {
        return false;
    }
    let mut i: usize = 0;
    while i < a_len
        invariant
            i <= a_len,
            a_len == a@.len(),
            a_len == b@.len(),
            forall|j: int| 0 <= j < i ==> a@[j] == b@[j],
        decreases a_len - i,
    {
        if a.get_char(i) != b.get_char(i) {
            return false;
        }
        i = i + 1;
    }
    proof {
        assert(a@ =~= b@);
    }
    true
}

/// Collects the characters of a string into a vector.
pub fn chars_of(s: &str) -> (r: Vec<char>)
    ensures
        r@ == s@,
{
    let len = s.unicode_len();
    let mut out: Vec<char> = Vec::new();
    let mut i: usize = 0;
    while i < len
        invariant
            i <= len,
            len == s@.len(),
            out@ == s@.take(i as int),
        decreases len - i,
    {
        out.push(s.get_char(i));
        proof {
            assert(s@.take(i as int).push(s@[i as int]) =~= s@.take(i + 1));
        }
        i = i + 1;
    }
    proof {
        assert(s@.take(len as int) =~= s@);
    }
    out
}

/// Relies on `String::from_iter` (through `Iterator::collect`): the collected
/// string holds exactly the characters of the vector, in order.
#[verifier::external_body]
pub fn chars_to_string(cs: &Vec<char>) -> (r: String)
    ensures
        r@ == cs@,
{
    cs.iter().collect()
}

/// The uppercase counterpart of an ASCII lowercase letter; any other
/// character is left as it is.
pub open spec fn upper_char(c: char) -> char {
    if 'a' as u32 <= c as u32 && c as u32 <= 'z' as u32 {
        ((c as u32) - 32) as char
    } else {
        c
    }
}

/// Uppercases an ASCII lowercase letter, leaving every other character alone.
pub fn to_upper_char(c: char) -> (r: char)
    ensures
        r == upper_char(c),
{
    let cu: u32 = c as u32;
    if 'a' as u32 <= cu && cu <= 'z' as u32 {
        char_from_code(cu - 32)
    } else {
        c
    }
}

/// Relies on `char::from_u32`: the character with the given scalar value.
#[verifier::external_body]
fn char_from_code(u: u32) -> (r: char)
    requires
        u < 128,
    ensures
        r == (u as char),
{
    char::from_u32(u).unwrap()
}

/// The index of the first `.` in `s`, or `s.len()` if there is none.
pub open spec fn first_dot(s: Seq<char>) -> int
    decreases s.len(),
{
    if s.len() == 0 {
        0
    } else if s[0] == '.' {
        0
    } else {
        1 + first_dot(s.skip(1))
    }
}

proof fn lemma_first_dot_bounds(s: Seq<char>)
    ensures
        0 <= first_dot(s) <= s.len(),
        forall|j: int| 0 <= j < first_dot(s) ==> s[j] != '.',
        first_dot(s) < s.len() ==> s[first_dot(s)] == '.',
    decreases s.len(),
{
    if s.len() != 0 && s[0] != '.' {
        lemma_first_dot_bounds(s.skip(1));
        assert forall|j: int| 0 <= j < first_dot(s) implies s[j] != '.' by {
            if j > 0 {
                assert(s[j] == s.skip(1)[j - 1]);
            }
        }
    }
}

/// The title shown for an article file name: everything before the first
/// `.`, with underscores turned into spaces and an ASCII lowercase first
/// letter uppercased.
pub open spec fn title_of(name: Seq<char>) -> Seq<char> {
    let stem = name.take(first_dot(name));
    let spaced = stem.map_values(|c: char| if c == '_' { ' ' } else { c });
    if spaced.len() == 0 {
        spaced
    } else {
        seq![upper_char(spaced[0])] + spaced.skip(1)
    }
}

/// Turns an article file name into a display title: the part before the
/// first `.`, underscores replaced by spaces, first letter capitalized.
pub fn convert_to_title(file_name: &str) -> (r: String)
    ensures
        r@ == title_of(file_name@),
{
    let len = file_name.unicode_len();
    proof {
        lemma_first_dot_bounds(file_name@);
    }
    let mut stem_len: usize = 0;
    while stem_len < len && file_name.get_char(stem_len) != '.'
        invariant
            stem_len <= len,
            len == file_name@.len(),
            forall|j: int| 0 <= j < stem_len ==> file_name@[j] != '.',
            stem_len <= first_dot(file_name@),
        decreases len - stem_len,
    {
        proof {
            lemma_first_dot_prefix(file_name@, stem_len + 1);
        }
        stem_len = stem_len + 1;
    }
    proof {
        assert(stem_len == first_dot(file_name@)) by {
            lemma_first_dot_bounds(file_name@);
        }
    }
    let ghost stem = file_name@.take(first_dot(file_name@));
    let ghost spaced = stem.map_values(|c: char| if c == '_' { ' ' } else { c });
    let mut out: Vec<char> = Vec::new();
    let mut i: usize = 0;
    while i < stem_len
        invariant
            i <= stem_len,
            stem_len <= len,
            len == file_name@.len(),
            stem == file_name@.take(stem_len as int),
            spaced == stem.map_values(|c: char| if c == '_' { ' ' } else { c }),
            out@ == title_prefix(spaced, i as int),
        decreases stem_len - i,
    {
        let c = file_name.get_char(i);
        let mapped = if c == '_' {
            ' '
        } else {
            c
        };
        let final_c = if i == 0 {
            to_upper_char(mapped)
        } else {
            mapped
        };
        out.push(final_c);
        proof {
            assert(title_prefix(spaced, i as int).push(final_c) =~= title_prefix(
                spaced,
                i + 1,
            ));
        }
        i = i + 1;
    }
    proof {
        assert(title_prefix(spaced, stem_len as int) =~= title_of(file_name@));
    }
    chars_to_string(&out)
}

/// The first `n` characters of the finished title built from `spaced`.
spec fn title_prefix(spaced: Seq<char>, n: int) -> Seq<char> {
    if spaced.len() == 0 {
        spaced.take(n)
    } else {
        (seq![upper_char(spaced[0])] + spaced.skip(1)).take(n)
    }
}

proof fn lemma_first_dot_prefix(s: Seq<char>, k: int)
    requires
        0 <= k <= s.len(),
        forall|j: int| 0 <= j < k ==> s[j] != '.',
    ensures
        first_dot(s) >= k,
    decreases k,
{
    lemma_first_dot_bounds(s);
    if k > 0 {
        assert(s[0] != '.');
        assert forall|j: int| 0 <= j < k - 1 implies s.skip(1)[j] != '.' by {
            assert(s.skip(1)[j] == s[j + 1]);
        }
        lemma_first_dot_prefix(s.skip(1), k - 1);
        assert(first_dot(s) == 1 + first_dot(s.skip(1)));
    }
}

} // verus!
