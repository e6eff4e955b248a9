//! Verified string utilities: character access, equality, ASCII case
//! mapping, whitespace tokenization, and concatenation helpers.

use vstd::prelude::*;

verus! {

/// Relies on `String::push`: appends the given `char` to the end of
/// the `String`.
pub assume_specification[ String::push ](s: &mut String, ch: char)
    ensures
        final(s)@ == old(s)@.push(ch),
;

/// The characters of a string, as a vector.
pub fn chars_of(s: &str) -> (r: Vec<char>)
    ensures
        r@ == s@,
{
    let n = s.unicode_len();
    let mut r: Vec<char> = Vec::new();
    let mut i: usize = 0;
    while i < n
        invariant
            i <= n,
            n == s@.len(),
            r@ == s@.subrange(0, i as int),
        decreases n - i,
    {
        let c = s.get_char(i);
        r.push(c);
        assert(s@.subrange(0, i as int).push(s@[i as int]) =~= s@.subrange(0, i as int + 1));
        i = i + 1;
    }
    assert(r@ =~= s@);
    r
}

/// A string made of exactly the given characters.
pub fn string_from_chars(v: &Vec<char>) -> (r: String)
    ensures
        r@ == v@,
{
    let mut r = String::new();
    let mut i: usize = 0;
    while i < v.len()
        invariant
            i <= v.len(),
            r@ == v@.subrange(0, i as int),
        decreases v.len() - i,
    {
        r.push(v[i]);
        assert(v@.subrange(0, i as int).push(v@[i as int]) =~= v@.subrange(0, i as int + 1));
        i = i + 1;
    }
    assert(r@ =~= v@);
    r
}

/// Whether two strings hold the same characters.
pub fn str_equal(a: &str, b: &str) -> (r: bool)
    ensures
        r == (a@ == b@),
{
    let n = a.unicode_len();
    if n != b.unicode_len() {
        return false;
    }
    let mut i: usize = 0;
    while i < n
        invariant
            i <= n,
            n == a@.len(),
            n == b@.len(),
            a@.subrange(0, i as int) == b@.subrange(0, i as int),
        decreases n - i,
    {
        if a.get_char(i) != b.get_char(i) {
            assert(a@[i as int] != b@[i as int]);
            return false;
        }
        assert(a@.subrange(0, i as int).push(a@[i as int]) =~= a@.subrange(0, i as int + 1));
        assert(b@.subrange(0, i as int).push(b@[i as int]) =~= b@.subrange(0, i as int + 1));
        i = i + 1;
    }
    assert(a@ =~= a@.subrange(0, n as int));
    assert(b@ =~= b@.subrange(0, n as int));
    true
}

/// The uppercase form of one character: ASCII letters are mapped,
/// everything else is kept.
pub open spec fn upper_char(c: char) -> char {
    if 'a' <= c && c <= 'z' {
        (((c as u8) - 32) as char)
    } else {
        c
    }
}

/// The lowercase form of one character: ASCII letters are mapped,
/// everything else is kept.
pub open spec fn lower_char(c: char) -> char {
    if 'A' <= c && c <= 'Z' {
        (((c as u8) + 32) as char)
    } else {
        c
    }
}

/// Character-wise ASCII uppercasing.
pub open spec fn upper_seq(s: Seq<char>) -> Seq<char> {
    s.map_values(|c: char| upper_char(c))
}

/// Character-wise ASCII lowercasing.
pub open spec fn lower_seq(s: Seq<char>) -> Seq<char> {
    s.map_values(|c: char| lower_char(c))
}

/// The lowercase form of one character.
pub fn lower_char_of(c: char) -> (r: char)
    ensures
        r == lower_char(c),
{
    if 'A' <= c && c <= 'Z' {
        ((c as u8) + 32) as char
    } else {
        c
    }
}

/// The string with every ASCII letter uppercased.
pub fn ascii_upper(s: &str) -> (r: String)
    ensures
        r@ == upper_seq(s@),
{
    let v = chars_of(s);
    let mut r = String::new();
    let mut i: usize = 0;
    while i < v.len()
        invariant
            i <= v.len(),
            v@ == s@,
            r@ == upper_seq(s@).subrange(0, i as int),
        decreases v.len() - i,
    {
        let c = v[i];
        let u: char = if 'a' <= c && c <= 'z' {
            ((c as u8) - 32) as char
        } else {
            c
        };
        assert(u == upper_char(s@[i as int]));
        r.push(u);
        assert(upper_seq(s@).subrange(0, i as int).push(upper_seq(s@)[i as int]) =~= upper_seq(
            s@,
        ).subrange(0, i as int + 1));
        i = i + 1;
    }
    assert(r@ =~= upper_seq(s@));
    r
}

/// The string with every ASCII letter lowercased.
pub fn ascii_lower(s: &str) -> (r: String)
    ensures
        r@ == lower_seq(s@),
{
    let v = chars_of(s);
    let mut r = String::new();
    let mut i: usize = 0;
    while i < v.len()
        invariant
            i <= v.len(),
            v@ == s@,
            r@ == lower_seq(s@).subrange(0, i as int),
        decreases v.len() - i,
    {
        let c = v[i];
        let l: char = if 'A' <= c && c <= 'Z' {
            ((c as u8) + 32) as char
        } else {
            c
        };
        assert(l == lower_char(s@[i as int]));
        r.push(l);
        assert(lower_seq(s@).subrange(0, i as int).push(lower_seq(s@)[i as int]) =~= lower_seq(
            s@,
        ).subrange(0, i as int + 1));
        i = i + 1;
    }
    assert(r@ =~= lower_seq(s@));
    r
}

/// ASCII whitespace, the separator for command-line tokenization.
pub open spec fn is_space(c: char) -> bool {
    c == ' ' || c == '\t' || c == '\n' || c == '\r' || c == '\x0b' || c == '\x0c'
}

/// Whether one character is ASCII whitespace.
pub fn is_space_char(c: char) -> (r: bool)
    ensures
        r == is_space(c),
{
    c == ' ' || c == '\t' || c == '\n' || c == '\r' || c == '\x0b' || c == '\x0c'
}

/// The whitespace-split tokens of `s` from position `i` on, with `cur`
/// the token currently being accumulated.
pub open spec fn split_ws_from(s: Seq<char>, i: int, cur: Seq<char>) -> Seq<Seq<char>>
    decreases s.len() - i,
{
    if i < 0 || i >= s.len() {
        if cur.len() == 0 {
            seq![]
        } else {
            seq![cur]
        }
    } else if is_space(s[i]) {
        if cur.len() == 0 {
            split_ws_from(s, i + 1, seq![])
        } else {
            seq![cur] + split_ws_from(s, i + 1, seq![])
        }
    } else {
        split_ws_from(s, i + 1, cur.push(s[i]))
    }
}

/// The whitespace-split tokens of a string: maximal runs of
/// non-whitespace characters, in order.
pub open spec fn split_ws(s: Seq<char>) -> Seq<Seq<char>> {
    split_ws_from(s, 0, seq![])
}

/// Splits a string into its whitespace-separated tokens.
pub fn split_whitespace_tokens(s: &str) -> (r: Vec<String>)
    ensures
        r.deep_view() == split_ws(s@),
{
    let v = chars_of(s);
    let mut r: Vec<String> = Vec::new();
    let mut cur: Vec<char> = Vec::new();
    let mut i: usize = 0;
    while i < v.len()
        invariant
            i <= v.len(),
            v@ == s@,
            split_ws(s@) == r.deep_view() + split_ws_from(s@, i as int, cur@),
        decreases v.len() - i,
    {
        let c = v[i];
        let ghost prev_r = r.deep_view();
        let ghost prev_cur = cur@;
        if is_space_char(c) {
            if cur.len() > 0 {
                let tok = string_from_chars(&cur);
                r.push(tok);
                cur = Vec::new();
                proof {
                    assert(r.deep_view() =~= prev_r.push(prev_cur));
                    assert(split_ws_from(s@, i as int, prev_cur) == seq![prev_cur]
                        + split_ws_from(s@, i as int + 1, cur@));
                    assert(prev_r.push(prev_cur) =~= prev_r + seq![prev_cur]);
                    assert((prev_r + seq![prev_cur]) + split_ws_from(s@, i as int + 1, cur@)
                        =~= prev_r + (seq![prev_cur] + split_ws_from(s@, i as int + 1, cur@)));
                }
            } else {
                assert(prev_cur =~= seq![]);
                assert(split_ws_from(s@, i as int, prev_cur) == split_ws_from(
                    s@,
                    i as int + 1,
                    prev_cur,
                ));
            }
        } else {
            cur.push(c);
            assert(split_ws_from(s@, i as int, prev_cur) == split_ws_from(s@, i as int + 1, cur@));
        }
        i = i + 1;
    }
    let ghost prev_r = r.deep_view();
    let ghost prev_cur = cur@;
    if cur.len() > 0 {
        let tok = string_from_chars(&cur);
        r.push(tok);
        proof {
            assert(r.deep_view() =~= prev_r.push(prev_cur));
            assert(prev_r.push(prev_cur) =~= prev_r + seq![prev_cur]);
        }
    } else {
        assert(r.deep_view() + split_ws_from(s@, v@.len() as int, cur@) =~= r.deep_view());
    }
    r
}

/// Splitting never yields tokens past the end of the input.
proof fn lemma_split_ws_all_space_from(s: Seq<char>, i: int)
    requires
        0 <= i,
        forall|j: int| 0 <= j < s.len() ==> is_space(#[trigger] s[j]),
    ensures
        split_ws_from(s, i, seq![]).len() == 0,
    decreases s.len() - i,
{
    if i < s.len() {
        assert(is_space(s[i]));
        lemma_split_ws_all_space_from(s, i + 1);
    }
}

/// A command line of only whitespace splits into no tokens at all:
/// starting from such a command line is refused with an empty-command
/// error before any record is created.
pub proof fn lemma_all_space_no_tokens(s: Seq<char>)
    requires
        forall|j: int| 0 <= j < s.len() ==> is_space(#[trigger] s[j]),
    ensures
        split_ws(s).len() == 0,
{
    lemma_split_ws_all_space_from(s, 0);
}

/// The concatenation of two strings.
pub fn concat2(a: &str, b: &str) -> (r: String)
    ensures
        r@ == a@ + b@,
{
    let mut s = String::from_str(a);
    s.append(b);
    s
}

/// The concatenation of three strings.
pub fn concat3(a: &str, b: &str, c: &str) -> (r: String)
    ensures
        r@ == a@ + b@ + c@,
{
    let mut s = String::from_str(a);
    s.append(b);
    s.append(c);
    s
}

/// The composite slot key `projectId:serviceId`.
pub open spec fn composite_of(project_id: Seq<char>, service_id: Seq<char>) -> Seq<char> {
    project_id + ":"@ + service_id
}

/// Builds the composite slot key `projectId:serviceId`.
pub fn composite_id(project_id: &str, service_id: &str) -> (r: String)
    ensures
        r@ == composite_of(project_id@, service_id@),
{
    concat3(project_id, ":", service_id)
}

} // verus!
