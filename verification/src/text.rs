//! Character-level text helpers shared by the rest of the library.
//!
//! Strings are modelled by their `Seq<char>` view; every helper states its
//! result over that view.
use vstd::prelude::*;

verus! {

// ---------------------------------------------------------------------------
// Character classes
// ---------------------------------------------------------------------------

/// Unicode `White_Space`, the set that `char::is_whitespace` and `str::trim` use.
pub open spec fn is_ws(c: char) -> bool {
    ||| c == ' '
    ||| ('\t' <= c && c <= '\r')
    ||| c == '\u{85}'
    ||| c == '\u{a0}'
    ||| c == '\u{1680}'
    ||| ('\u{2000}' <= c && c <= '\u{200a}')
    ||| c == '\u{2028}'
    ||| c == '\u{2029}'
    ||| c == '\u{202f}'
    ||| c == '\u{205f}'
    ||| c == '\u{3000}'
}

pub open spec fn is_upper(c: char) -> bool {
    'A' <= c && c <= 'Z'
}

pub open spec fn is_lower(c: char) -> bool {
    'a' <= c && c <= 'z'
}

pub open spec fn is_digit(c: char) -> bool {
    '0' <= c && c <= '9'
}

pub open spec fn is_alnum(c: char) -> bool {
    is_upper(c) || is_lower(c) || is_digit(c)
}

/// ASCII lower-casing of one character; other characters are unchanged.
pub open spec fn lower(c: char) -> char {
    if is_upper(c) {
        ((c as int) + 32) as char
    } else {
        c
    }
}

/// ASCII upper-casing of one character; other characters are unchanged.
pub open spec fn upper(c: char) -> char {
    if is_lower(c) {
        ((c as int) - 32) as char
    } else {
        c
    }
}

pub open spec fn lower_seq(s: Seq<char>) -> Seq<char> {
    s.map_values(|c: char| lower(c))
}

pub fn char_is_ws(c: char) -> (res: bool)
    ensures
        res == is_ws(c),
{
    c == ' ' || ('\t' <= c && c <= '\r') || c == '\u{85}' || c == '\u{a0}' || c == '\u{1680}'
        || ('\u{2000}' <= c && c <= '\u{200a}') || c == '\u{2028}' || c == '\u{2029}' || c
        == '\u{202f}' || c == '\u{205f}' || c == '\u{3000}'
}

pub fn char_is_alnum(c: char) -> (res: bool)
    ensures
        res == is_alnum(c),
{
    ('A' <= c && c <= 'Z') || ('a' <= c && c <= 'z') || ('0' <= c && c <= '9')
}

pub fn char_lower(c: char) -> (res: char)
    ensures
        res == lower(c),
{
    if 'A' <= c && c <= 'Z' {
        let code: u32 = c as u32;
        let small: u8 = code as u8;
        assert(small as u32 == code) by (bit_vector)
            requires
                code < 256,
                small == code as u8,
        ;
        (small + 32) as char
    } else {
        c
    }
}

pub fn char_upper(c: char) -> (res: char)
    ensures
        res == upper(c),
{
    if 'a' <= c && c <= 'z' {
        let code: u32 = c as u32;
        let small: u8 = code as u8;
        assert(small as u32 == code) by (bit_vector)
            requires
                code < 256,
                small == code as u8,
        ;
        (small - 32) as char
    } else {
        c
    }
}

/// The character sequences of a list of strings.
pub open spec fn string_views(v: Seq<String>) -> Seq<Seq<char>> {
    v.map_values(|s: String| s@)
}

/// The text of an optional string.
pub open spec fn opt_string(o: Option<String>) -> Option<Seq<char>> {
    match o {
        Some(s) => Some(s@),
        None => None,
    }
}

/// The text of an optional string slice.
pub open spec fn opt_str(o: Option<&str>) -> Option<Seq<char>> {
    match o {
        Some(s) => Some(s@),
        None => None,
    }
}

// ---------------------------------------------------------------------------
// Conversions between `&str`, `String` and `Vec<char>`
// ---------------------------------------------------------------------------

/// The characters of a string slice, in order.
pub fn chars_of(s: &str) -> (v: Vec<char>)
    ensures
        v@ == s@,
{
    let n = s.unicode_len();
    let mut v: Vec<char> = Vec::new();
    let mut i: usize = 0;
    while i < n
        invariant
            n == s@.len(),
            i <= n,
            v@ == s@.subrange(0, i as int),
        decreases n - i,
    {
        let c = s.get_char(i);
        v.push(c);
        i = i + 1;
        assert(v@ =~= s@.subrange(0, i as int));
    }
    assert(v@ =~= s@);
    v
}

/// `String::push`: appends one character.
#[verifier::external_body]
pub(crate) fn push_char(s: &mut String, c: char)
    ensures
        final(s)@ == old(s)@.push(c),
{
    s.push(c)
}

/// A `String` holding exactly the given characters.
pub fn string_from(v: &[char]) -> (s: String)
    ensures
        s@ == v@,
{
    let mut s = String::new();
    let mut i: usize = 0;
    while i < v.len()
        invariant
            i <= v@.len(),
            s@ == v@.subrange(0, i as int),
        decreases v@.len() - i,
    {
        push_char(&mut s, v[i]);
        i = i + 1;
        assert(s@ =~= v@.subrange(0, i as int));
    }
    assert(s@ =~= v@);
    s
}

/// Concatenation of two strings.
pub fn concat(a: &str, b: &str) -> (s: String)
    ensures
        s@ == a@ + b@,
{
    let mut s = a.to_owned();
    s.append(b);
    s
}

/// `a + b + c`.
pub fn cat3(a: &str, b: &str, c: &str) -> (s: String)
    ensures
        s@ == a@ + b@ + c@,
{
    let mut s = a.to_owned();
    s.append(b);
    s.append(c);
    s
}

/// `a + b + c + d`.
pub fn cat4(a: &str, b: &str, c: &str, d: &str) -> (s: String)
    ensures
        s@ == a@ + b@ + c@ + d@,
{
    let mut s = a.to_owned();
    s.append(b);
    s.append(c);
    s.append(d);
    s
}

/// `a + b + c + d + e`.
pub fn cat5(a: &str, b: &str, c: &str, d: &str, e: &str) -> (s: String)
    ensures
        s@ == a@ + b@ + c@ + d@ + e@,
{
    let mut s = a.to_owned();
    s.append(b);
    s.append(c);
    s.append(d);
    s.append(e);
    s
}

/// `a + b + c + d + e + f + g`.
pub fn cat7(a: &str, b: &str, c: &str, d: &str, e: &str, f: &str, g: &str) -> (s: String)
    ensures
        s@ == a@ + b@ + c@ + d@ + e@ + f@ + g@,
{
    let mut s = a.to_owned();
    s.append(b);
    s.append(c);
    s.append(d);
    s.append(e);
    s.append(f);
    s.append(g);
    s
}

/// A copy of each string, in order.
pub fn clone_strings(v: &[String]) -> (res: Vec<String>)
    ensures
        res@ == v@,
{
    let mut out: Vec<String> = Vec::new();
    let mut i: usize = 0;
    while i < v.len()
        invariant
            i <= v@.len(),
            out@ == v@.take(i as int),
        decreases v@.len() - i,
    {
        out.push(v[i].clone());
        i = i + 1;
        assert(out@ =~= v@.take(i as int));
    }
    assert(v@.take(v@.len() as int) =~= v@);
    out
}

/// A copy of an optional string.
pub fn clone_opt(v: &Option<String>) -> (res: Option<String>)
    ensures
        res == *v,
{
    match v {
        Some(s) => Some(s.clone()),
        None => None,
    }
}

/// A copy of each pair of strings, in order.
pub fn clone_pairs(v: &[(String, String)]) -> (res: Vec<(String, String)>)
    ensures
        res@ == v@,
{
    let mut out: Vec<(String, String)> = Vec::new();
    let mut i: usize = 0;
    while i < v.len()
        invariant
            i <= v@.len(),
            out@ == v@.take(i as int),
        decreases v@.len() - i,
    {
        out.push((v[i].0.clone(), v[i].1.clone()));
        i = i + 1;
        assert(out@ =~= v@.take(i as int));
    }
    assert(v@.take(v@.len() as int) =~= v@);
    out
}

/// Concatenation of a list of strings.
pub fn concat_all(parts: &[&str]) -> (s: String)
    ensures
        s@ == flatten_strs(parts@),
{
    let mut s = String::new();
    let mut i: usize = 0;
    while i < parts.len()
        invariant
            i <= parts@.len(),
            s@ == flatten_strs(parts@.subrange(0, i as int)),
        decreases parts@.len() - i,
    {
        s.append(parts[i]);
        assert(parts@.subrange(0, i + 1).drop_last() =~= parts@.subrange(0, i as int));
        i = i + 1;
    }
    assert(parts@.subrange(0, parts@.len() as int) =~= parts@);
    s
}

pub open spec fn flatten_strs(parts: Seq<&str>) -> Seq<char>
    decreases parts.len(),
{
    if parts.len() == 0 {
        Seq::empty()
    } else {
        flatten_strs(parts.drop_last()) + parts.last()@
    }
}

/// Character-wise equality of two strings.
pub fn str_eq(a: &str, b: &str) -> (res: bool)
    ensures
        res == (a@ == b@),
{
    let x = a.to_owned();
    let y = b.to_owned();
    x == y
}

/// Character-wise equality of two character sequences.
pub fn chars_eq(a: &[char], b: &[char]) -> (res: bool)
    ensures
        res == (a@ == b@),
{
    if a.len() != b.len() {
        return false;
    }
    let mut i: usize = 0;
    while i < a.len()
        invariant
            a@.len() == b@.len(),
            i <= a@.len(),
            forall|k: int| 0 <= k < i ==> a@[k] == b@[k],
        decreases a@.len() - i,
    {
        if a[i] != b[i] {
            return false;
        }
        i = i + 1;
    }
    assert(a@ =~= b@);
    true
}

// ---------------------------------------------------------------------------
// Prefixes and searching
// ---------------------------------------------------------------------------

pub open spec fn has_prefix(s: Seq<char>, p: Seq<char>) -> bool {
    p.len() <= s.len() && s.subrange(0, p.len() as int) == p
}

pub open spec fn occurs_at(s: Seq<char>, p: Seq<char>, i: int) -> bool {
    0 <= i && i + p.len() <= s.len() && s.subrange(i, i + p.len()) == p
}

/// The index of the first occurrence of `p` in `s`, if any (as `str::find`).
pub open spec fn first_occurrence(s: Seq<char>, p: Seq<char>) -> Option<int> {
    if exists|i: int| occurs_at(s, p, i) {
        Some(choose|i: int| occurs_at(s, p, i) && forall|j: int| 0 <= j < i ==> !occurs_at(s, p, j))
    } else {
        None
    }
}

pub fn starts_with(s: &[char], p: &[char]) -> (res: bool)
    ensures
        res == has_prefix(s@, p@),
{
    matches_at(s, p, 0)
}

pub fn matches_at(s: &[char], p: &[char], i: usize) -> (res: bool)
    ensures
        res == occurs_at(s@, p@, i as int),
{
    if i > s.len() || p.len() > s.len() - i {
        return false;
    }
    let mut k: usize = 0;
    while k < p.len()
        invariant
            i + p@.len() <= s@.len(),
            s@.len() == s.len(),
            k <= p@.len(),
            forall|j: int| 0 <= j < k ==> s@[i + j] == p@[j],
        decreases p@.len() - k,
    {
        if s[i + k] != p[k] {
            assert(s@.subrange(i as int, i + p@.len())[k as int] != p@[k as int]);
            return false;
        }
        k = k + 1;
    }
    assert(s@.subrange(i as int, i + p@.len()) =~= p@);
    true
}

/// `str::find` on character sequences: the first index at which `p` occurs
/// at or after `from`.
pub fn find_from(s: &[char], p: &[char], from: usize) -> (res: Option<usize>)
    ensures
        match res {
            Some(i) => from <= i && occurs_at(s@, p@, i as int) && forall|j: int|
                from <= j < i ==> !occurs_at(s@, p@, j),
            None => forall|j: int| from <= j ==> !occurs_at(s@, p@, j),
        },
{
    if from > s.len() {
        return None;
    }
    let mut i = from;
    while i < s.len()
        invariant
            from <= i <= s@.len(),
            forall|j: int| from <= j < i ==> !occurs_at(s@, p@, j),
        decreases s@.len() - i,
    {
        if matches_at(s, p, i) {
            return Some(i);
        }
        i = i + 1;
    }
    if matches_at(s, p, i) {
        return Some(i);
    }
    None
}

pub fn find(s: &[char], p: &[char]) -> (res: Option<usize>)
    ensures
        res matches Some(i) ==> first_occurrence(s@, p@) == Some(i as int) && occurs_at(s@, p@, i as int),
        res is None ==> first_occurrence(s@, p@) is None,
{
    let r = find_from(s, p, 0);
    proof {
        match r {
            Some(i) => {
                assert(exists|k: int| occurs_at(s@, p@, k));
                let c = choose|k: int|
                    occurs_at(s@, p@, k) && forall|j: int| 0 <= j < k ==> !occurs_at(s@, p@, j);
                assert(occurs_at(s@, p@, c));
                if c < i {
                    assert(!occurs_at(s@, p@, c));
                }
                if i < c {
                    assert(!occurs_at(s@, p@, i as int));
                }
            },
            None => {
                assert(forall|k: int| !occurs_at(s@, p@, k));
            },
        }
    }
    r
}

/// The first index at or after `k` at which `p` occurs in `s`.
pub open spec fn occurrence_from(s: Seq<char>, p: Seq<char>, k: int) -> Option<int>
    decreases s.len() + 1 - k,
{
    if k < 0 || k + p.len() > s.len() {
        None
    } else if occurs_at(s, p, k) {
        Some(k)
    } else {
        occurrence_from(s, p, k + 1)
    }
}

/// `str::find` on `s[from..]`, with the index counted in `s`.
pub fn find_str_from(s: &[char], p: &[char], from: usize) -> (res: Option<usize>)
    ensures
        match res {
            Some(i) => from <= i && i + p@.len() <= s@.len() && occurrence_from(s@, p@, from as int)
                == Some(i as int),
            None => occurrence_from(s@, p@, from as int) is None,
        },
{
    if from > s.len() {
        return None;
    }
    let mut i = from;
    while i < s.len()
        invariant
            from <= i <= s@.len(),
            occurrence_from(s@, p@, from as int) == occurrence_from(s@, p@, i as int),
        decreases s@.len() - i,
    {
        if matches_at(s, p, i) {
            return Some(i);
        }
        i = i + 1;
    }
    if matches_at(s, p, i) {
        return Some(i);
    }
    assert(occurrence_from(s@, p@, i + 1) is None);
    None
}

pub proof fn lemma_occurrence_from_bounds(s: Seq<char>, p: Seq<char>, k: int)
    ensures
        occurrence_from(s, p, k) matches Some(i) ==> k <= i && i + p.len() <= s.len() && occurs_at(s, p, i),
    decreases s.len() + 1 - k,
{
    if !(k < 0 || k + p.len() > s.len()) && !occurs_at(s, p, k) {
        lemma_occurrence_from_bounds(s, p, k + 1);
    }
}

pub proof fn lemma_char_index_from_bounds(s: Seq<char>, c: char, k: int)
    ensures
        char_index_from(s, c, k) matches Some(i) ==> k <= i < s.len() && s[i] == c,
    decreases s.len() - k,
{
    if !(k < 0 || k >= s.len()) && s[k] != c {
        lemma_char_index_from_bounds(s, c, k + 1);
    }
}

/// The index of the first `c` in `s` at or after `k`, counted in `s`.
pub fn find_char_from(s: &[char], c: char, from: usize) -> (res: Option<usize>)
    ensures
        match res {
            Some(i) => from <= i < s@.len() && char_index_from(s@, c, from as int) == Some(i as int),
            None => char_index_from(s@, c, from as int) is None,
        },
{
    let mut i = from;
    while i < s.len()
        invariant
            from <= i,
            char_index_from(s@, c, from as int) == char_index_from(s@, c, i as int),
        decreases s@.len() - i,
    {
        if s[i] == c {
            return Some(i);
        }
        i = i + 1;
    }
    None
}

/// The index of the first `c` in `s` at or after `k`.
pub open spec fn char_index_from(s: Seq<char>, c: char, k: int) -> Option<int>
    decreases s.len() - k,
{
    if k < 0 || k >= s.len() {
        None
    } else if s[k] == c {
        Some(k)
    } else {
        char_index_from(s, c, k + 1)
    }
}

/// `str::find` with a `char` pattern: the index of the first `c` in `s`.
pub open spec fn char_index(s: Seq<char>, c: char) -> Option<int> {
    char_index_from(s, c, 0)
}

pub fn find_char(s: &[char], c: char) -> (res: Option<usize>)
    ensures
        match res {
            Some(i) => i < s@.len() && s@[i as int] == c && char_index(s@, c) == Some(i as int),
            None => char_index(s@, c) is None,
        },
{
    let mut i: usize = 0;
    while i < s.len()
        invariant
            i <= s@.len(),
            char_index(s@, c) == char_index_from(s@, c, i as int),
        decreases s@.len() - i,
    {
        if s[i] == c {
            return Some(i);
        }
        i = i + 1;
    }
    None
}

// ---------------------------------------------------------------------------
// Trimming
// ---------------------------------------------------------------------------

pub open spec fn trim_start_seq(s: Seq<char>) -> Seq<char>
    decreases s.len(),
{
    if s.len() > 0 && is_ws(s[0]) {
        trim_start_seq(s.drop_first())
    } else {
        s
    }
}

pub open spec fn trim_end_seq(s: Seq<char>) -> Seq<char>
    decreases s.len(),
{
    if s.len() > 0 && is_ws(s.last()) {
        trim_end_seq(s.drop_last())
    } else {
        s
    }
}

/// `str::trim`: leading and trailing Unicode whitespace removed.
pub open spec fn trim_seq(s: Seq<char>) -> Seq<char> {
    trim_end_seq(trim_start_seq(s))
}

proof fn lemma_trim_start_skip(s: Seq<char>, i: int)
    requires
        0 <= i <= s.len(),
        forall|k: int| 0 <= k < i ==> is_ws(#[trigger] s[k]),
    ensures
        trim_start_seq(s) == trim_start_seq(s.skip(i)),
    decreases i,
{
    if i > 0 {
        assert(s.drop_first().skip(i - 1) =~= s.skip(i));
        assert forall|k: int| 0 <= k < i - 1 implies is_ws(#[trigger] s.drop_first()[k]) by {
            assert(s.drop_first()[k] == s[k + 1]);
        }
        lemma_trim_start_skip(s.drop_first(), i - 1);
    } else {
        assert(s.skip(0) =~= s);
    }
}

proof fn lemma_trim_end_take(s: Seq<char>, j: int)
    requires
        0 <= j <= s.len(),
        forall|k: int| j <= k < s.len() ==> is_ws(#[trigger] s[k]),
    ensures
        trim_end_seq(s) == trim_end_seq(s.take(j)),
    decreases s.len() - j,
{
    if j < s.len() {
        assert(s.drop_last().take(j) =~= s.take(j));
        lemma_trim_end_take(s.drop_last(), j);
    } else {
        assert(s.take(j) =~= s);
    }
}

/// The start and end of the trimmed part of `s`.
pub fn trim_bounds(s: &[char]) -> (res: (usize, usize))
    ensures
        res.0 <= res.1 <= s@.len(),
        s@.subrange(res.0 as int, res.1 as int) == trim_seq(s@),
{
    let mut i: usize = 0;
    while i < s.len() && char_is_ws(s[i])
        invariant
            i <= s@.len(),
            forall|k: int| 0 <= k < i ==> is_ws(#[trigger] s@[k]),
        decreases s@.len() - i,
    {
        i = i + 1;
    }
    proof {
        lemma_trim_start_skip(s@, i as int);
        let t = s@.skip(i as int);
        assert(t.len() == 0 || !is_ws(t[0]));
    }
    let mut j: usize = s.len();
    while j > i && char_is_ws(s[j - 1])
        invariant
            i <= j <= s@.len(),
            forall|k: int| j <= k < s@.len() ==> is_ws(#[trigger] s@[k]),
        decreases j,
    {
        j = j - 1;
    }
    proof {
        let t = s@.skip(i as int);
        assert forall|k: int| j - i <= k < t.len() implies is_ws(#[trigger] t[k]) by {
            assert(t[k] == s@[k + i]);
        }
        lemma_trim_end_take(t, j - i);
        let u = t.take(j - i);
        assert(u =~= s@.subrange(i as int, j as int));
        if u.len() > 0 {
            assert(u.last() == s@[j - 1]);
        }
    }
    (i, j)
}

/// `str::trim_start`: leading whitespace removed.
pub fn trim_start_chars(s: &[char]) -> (res: Vec<char>)
    ensures
        res@ == trim_start_seq(s@),
{
    let mut i: usize = 0;
    while i < s.len() && char_is_ws(s[i])
        invariant
            i <= s@.len(),
            forall|k: int| 0 <= k < i ==> is_ws(#[trigger] s@[k]),
        decreases s@.len() - i,
    {
        i = i + 1;
    }
    proof {
        lemma_trim_start_skip(s@, i as int);
        assert(s@.subrange(i as int, s@.len() as int) =~= s@.skip(i as int));
    }
    slice_to_vec(s, i, s.len())
}

pub fn trim_chars(s: &[char]) -> (res: Vec<char>)
    ensures
        res@ == trim_seq(s@),
{
    let (i, j) = trim_bounds(s);
    slice_to_vec(s, i, j)
}

/// `str::trim` on a string slice.
pub fn trim(s: &str) -> (res: String)
    ensures
        res@ == trim_seq(s@),
{
    let v = chars_of(s);
    let t = trim_chars(&v);
    string_from(&t)
}

/// The characters `s[from..to]`.
pub fn slice_to_vec(s: &[char], from: usize, to: usize) -> (res: Vec<char>)
    requires
        from <= to <= s@.len(),
    ensures
        res@ == s@.subrange(from as int, to as int),
{
    let mut v: Vec<char> = Vec::new();
    let mut k = from;
    while k < to
        invariant
            from <= k <= to <= s@.len(),
            v@ == s@.subrange(from as int, k as int),
        decreases to - k,
    {
        v.push(s[k]);
        k = k + 1;
        assert(v@ =~= s@.subrange(from as int, k as int));
    }
    v
}

/// `str::is_empty` after `str::trim`.
pub fn is_blank(s: &str) -> (res: bool)
    ensures
        res == (trim_seq(s@).len() == 0),
{
    let v = chars_of(s);
    let (i, j) = trim_bounds(&v);
    i == j
}

// ---------------------------------------------------------------------------
// Case conversion
// ---------------------------------------------------------------------------

pub fn lower_chars(s: &[char]) -> (res: Vec<char>)
    ensures
        res@ == lower_seq(s@),
{
    let mut v: Vec<char> = Vec::new();
    let mut i: usize = 0;
    while i < s.len()
        invariant
            i <= s@.len(),
            v@ == lower_seq(s@.subrange(0, i as int)),
        decreases s@.len() - i,
    {
        v.push(char_lower(s[i]));
        i = i + 1;
        assert(v@ =~= lower_seq(s@.subrange(0, i as int)));
    }
    assert(s@.subrange(0, s@.len() as int) =~= s@);
    v
}

/// `str::eq_ignore_ascii_case`.
pub fn eq_ignore_ascii_case(a: &str, b: &str) -> (res: bool)
    ensures
        res == (lower_seq(a@) == lower_seq(b@)),
{
    let x = lower_chars(&chars_of(a));
    let y = lower_chars(&chars_of(b));
    let r = chars_eq(&x, &y);
    proof {
        if a@.len() != b@.len() {
            assert(lower_seq(a@).len() != lower_seq(b@).len());
        }
    }
    r
}

// ---------------------------------------------------------------------------
// Words
// ---------------------------------------------------------------------------

/// Length of the leading run of ASCII letters and digits.
pub open spec fn alnum_run(s: Seq<char>) -> nat
    decreases s.len(),
{
    if s.len() > 0 && is_alnum(s[0]) {
        1 + alnum_run(s.drop_first())
    } else {
        0
    }
}

/// The maximal runs of ASCII letters and digits of `s`, lower-cased, in order.
pub open spec fn words(s: Seq<char>) -> Seq<Seq<char>>
    decreases s.len(),
{
    if s.len() == 0 {
        Seq::empty()
    } else if !is_alnum(s[0]) {
        words(s.drop_first())
    } else {
        let n = alnum_run(s);
        proof {
            lemma_alnum_run_bound(s);
        }
        seq![lower_seq(s.take(n as int))] + words(s.skip(n as int))
    }
}

/// The pieces joined with `sep` between consecutive pieces.
pub open spec fn join(pieces: Seq<Seq<char>>, sep: Seq<char>) -> Seq<char>
    decreases pieces.len(),
{
    if pieces.len() == 0 {
        Seq::empty()
    } else if pieces.len() == 1 {
        pieces[0]
    } else {
        join(pieces.drop_last(), sep) + sep + pieces.last()
    }
}

pub proof fn lemma_alnum_run_bound(s: Seq<char>)
    ensures
        alnum_run(s) <= s.len(),
        forall|k: int| 0 <= k < alnum_run(s) ==> is_alnum(#[trigger] s[k]),
        alnum_run(s) < s.len() ==> !is_alnum(s[alnum_run(s) as int]),
    decreases s.len(),
{
    if s.len() > 0 && is_alnum(s[0]) {
        lemma_alnum_run_bound(s.drop_first());
        assert forall|k: int| 0 <= k < alnum_run(s) implies is_alnum(#[trigger] s[k]) by {
            if k > 0 {
                assert(s[k] == s.drop_first()[k - 1]);
            }
        }
    }
}

proof fn lemma_alnum_run_exact(s: Seq<char>, n: int)
    requires
        0 <= n <= s.len(),
        forall|k: int| 0 <= k < n ==> is_alnum(#[trigger] s[k]),
        n == s.len() || !is_alnum(s[n]),
    ensures
        alnum_run(s) == n,
    decreases n,
{
    if n > 0 {
        assert forall|k: int| 0 <= k < n - 1 implies is_alnum(#[trigger] s.drop_first()[k]) by {
            assert(s.drop_first()[k] == s[k + 1]);
        }
        if n < s.len() {
            assert(s.drop_first()[n - 1] == s[n]);
        }
        lemma_alnum_run_exact(s.drop_first(), n - 1);
    }
}

/// Splits a name into lower-cased ASCII alphanumeric words.
pub fn split_words(value: &str) -> (res: Vec<String>)
    ensures
        res@.len() == words(value@).len(),
        forall|k: int| 0 <= k < res@.len() ==> #[trigger] res@[k]@ == words(value@)[k],
{
    let s = chars_of(value);
    let mut out: Vec<String> = Vec::new();
    let mut i: usize = 0;
    let ghost mut done: Seq<Seq<char>> = Seq::empty();
    assert(s@.skip(0) =~= s@);
    assert(done + words(s@) =~= words(s@));
    while i < s.len()
        invariant
            s@ == value@,
            i <= s@.len(),
            out@.len() == done.len(),
            forall|k: int| 0 <= k < out@.len() ==> #[trigger] out@[k]@ == done[k],
            words(s@) == done + words(s@.skip(i as int)),
        decreases s@.len() - i,
    {
        let ghost rest = s@.skip(i as int);
        if !char_is_alnum(s[i]) {
            assert(rest.drop_first() =~= s@.skip(i + 1));
            i = i + 1;
        } else {
            let mut j = i;
            while j < s.len() && char_is_alnum(s[j])
                invariant
                    i <= j <= s@.len(),
                    forall|k: int| i <= k < j ==> is_alnum(#[trigger] s@[k]),
                decreases s@.len() - j,
            {
                j = j + 1;
            }
            let piece = lower_chars(&slice_to_vec(&s, i, j));
            proof {
                assert forall|k: int| 0 <= k < j - i implies is_alnum(#[trigger] rest[k]) by {
                    assert(rest[k] == s@[k + i]);
                }
                if j < s@.len() {
                    assert(rest[j - i] == s@[j as int]);
                }
                lemma_alnum_run_exact(rest, j - i);
                assert(rest.take(j - i) =~= s@.subrange(i as int, j as int));
                assert(rest.skip(j - i) =~= s@.skip(j as int));
                done = done.push(piece@);
                assert(seq![piece@] + words(s@.skip(j as int)) == words(rest));
                assert(done + words(s@.skip(j as int)) =~= done.drop_last() + (seq![piece@]
                    + words(s@.skip(j as int))));
            }
            out.push(string_from(&piece));
            i = j;
        }
    }
    proof {
        assert(s@.skip(i as int).len() == 0);
        assert(done + words(s@.skip(i as int)) =~= done);
    }
    out
}

/// Joins the strings with `sep` between consecutive ones (as `[String]::join`).
pub fn join_strings(pieces: &[String], sep: &str) -> (res: String)
    ensures
        res@ == join(pieces@.map_values(|p: String| p@), sep@),
{
    let ghost views = pieces@.map_values(|p: String| p@);
    let mut s = String::new();
    let mut i: usize = 0;
    while i < pieces.len()
        invariant
            i <= pieces@.len(),
            views == pieces@.map_values(|p: String| p@),
            s@ == join(views.take(i as int), sep@),
        decreases pieces@.len() - i,
    {
        if i > 0 {
            s.append(sep);
        }
        s.append(pieces[i].as_str());
        proof {
            let t = views.take(i + 1);
            assert(t.drop_last() =~= views.take(i as int));
            if i == 0 {
                assert(s@ =~= t[0]);
            }
        }
        i = i + 1;
    }
    assert(views.take(pieces@.len() as int) =~= views);
    s
}

pub open spec fn join_views(pieces: Seq<String>, sep: Seq<char>) -> Seq<char> {
    join(pieces.map_values(|p: String| p@), sep)
}

/// `s` with every `_` replaced by `-`.
pub open spec fn underscores_to_dashes(s: Seq<char>) -> Seq<char> {
    s.map_values(|c: char| if c == '_' { '-' } else { c })
}

/// No word holds `_`: each is lower-cased ASCII letters and digits.
proof fn lemma_words_have_no_underscore(s: Seq<char>)
    ensures
        forall|i: int| 0 <= i < words(s).len() ==> !(#[trigger] words(s)[i]).contains('_'),
    decreases s.len(),
{
    if s.len() > 0 {
        if !is_alnum(s[0]) {
            lemma_words_have_no_underscore(s.drop_first());
            assert(words(s) == words(s.drop_first()));
        } else {
            let n = alnum_run(s);
            lemma_alnum_run_bound(s);
            lemma_words_have_no_underscore(s.skip(n as int));
            let w = lower_seq(s.take(n as int));
            assert(words(s) == seq![w] + words(s.skip(n as int)));
            assert(!w.contains('_')) by {
                if w.contains('_') {
                    let k = choose|k: int| 0 <= k < w.len() && w[k] == '_';
                    assert(is_alnum(s[k]));
                    assert(w[k] == lower(s.take(n as int)[k]));
                }
            }
            assert forall|i: int| 0 <= i < words(s).len() implies !(#[trigger] words(s)[i]).contains('_') by {
                if i > 0 {
                    assert(words(s)[i] == words(s.skip(n as int))[i - 1]);
                }
            }
        }
    }
}

proof fn lemma_join_dashes(pieces: Seq<Seq<char>>)
    requires
        forall|i: int| 0 <= i < pieces.len() ==> !(#[trigger] pieces[i]).contains('_'),
    ensures
        join(pieces, seq!['-']) == underscores_to_dashes(join(pieces, seq!['_'])),
    decreases pieces.len(),
{
    if pieces.len() == 0 {
        assert(underscores_to_dashes(Seq::empty()) =~= Seq::<char>::empty());
    } else if pieces.len() == 1 {
        let p = pieces[0];
        assert forall|k: int| 0 <= k < p.len() implies p[k] != '_' by {
            if p[k] == '_' {
                assert(p.contains(p[k]));
            }
        }
        assert(underscores_to_dashes(p) =~= p);
    } else {
        let init = pieces.drop_last();
        assert forall|i: int| 0 <= i < init.len() implies !(#[trigger] init[i]).contains('_') by {
            assert(init[i] == pieces[i]);
        }
        lemma_join_dashes(init);
        let p = pieces.last();
        assert(!pieces[pieces.len() - 1].contains('_'));
        assert forall|k: int| 0 <= k < p.len() implies p[k] != '_' by {
            if p[k] == '_' {
                assert(p.contains(p[k]));
            }
        }
        let under = join(init, seq!['_']);
        assert(underscores_to_dashes(under + seq!['_'] + p) =~= underscores_to_dashes(under) + seq!['-']
            + underscores_to_dashes(p));
        assert(underscores_to_dashes(p) =~= p);
    }
}

/// The kebab-case of a name is its snake-case with `-` for `_`: the same
/// words, joined differently.
pub proof fn law_kebab_is_snake_with_dashes(value: Seq<char>)
    ensures
        join(words(value), seq!['-']) == underscores_to_dashes(join(words(value), seq!['_'])),
{
    lemma_words_have_no_underscore(value);
    lemma_join_dashes(words(value));
}

/// `split_words(value)` joined with `_`.
pub fn to_snake_case(value: &str) -> (res: String)
    ensures
        res@ == join(words(value@), seq!['_']),
{
    let w = split_words(value);
    let r = join_strings(&w, "_");
    proof {
        reveal_strlit("_");
        assert("_"@ =~= seq!['_']);
        assert(w@.map_values(|p: String| p@) =~= words(value@));
    }
    r
}

/// `split_words(value)` joined with `-`.
pub fn to_kebab_case(value: &str) -> (res: String)
    ensures
        res@ == join(words(value@), seq!['-']),
{
    let w = split_words(value);
    let r = join_strings(&w, "-");
    proof {
        reveal_strlit("-");
        assert("-"@ =~= seq!['-']);
        assert(w@.map_values(|p: String| p@) =~= words(value@));
    }
    r
}

/// `str::trim` followed by `to_string`.
pub fn normalize_name(value: &str) -> (res: String)
    ensures
        res@ == trim_seq(value@),
{
    trim(value)
}

/// Forward slashes in place of backslashes.
pub open spec fn posix_seq(s: Seq<char>) -> Seq<char> {
    s.map_values(|c: char| if c == '\\' { '/' } else { c })
}

pub fn to_posix_path(path: &str) -> (res: String)
    ensures
        res@ == posix_seq(path@),
{
    let s = chars_of(path);
    let mut v: Vec<char> = Vec::new();
    let mut i: usize = 0;
    while i < s.len()
        invariant
            s@ == path@,
            i <= s@.len(),
            v@ == posix_seq(s@.take(i as int)),
        decreases s@.len() - i,
    {
        let c = s[i];
        v.push(if c == '\\' { '/' } else { c });
        i = i + 1;
        assert(v@ =~= posix_seq(s@.take(i as int)));
    }
    assert(s@.take(s@.len() as int) =~= s@);
    string_from(&v)
}

} // verus!

verus! {

pub open spec fn digit_char(d: nat) -> char {
    ((d + 48) as u8) as char
}

/// The decimal digits of `n`, most significant first.
pub open spec fn decimal(n: nat) -> Seq<char>
    decreases n,
{
    if n < 10 {
        seq![digit_char(n)]
    } else {
        decimal(n / 10).push(digit_char(n % 10))
    }
}

/// The decimal text of a number (as `to_string`).
pub fn u128_to_string(n: u128) -> (s: String)
    ensures
        s@ == decimal(n as nat),
    decreases n,
{
    let d: u8 = (n % 10) as u8;
    let c = (d + 48) as char;
    if n < 10 {
        let mut s = String::new();
        push_char(&mut s, c);
        s
    } else {
        let mut s = u128_to_string(n / 10);
        push_char(&mut s, c);
        s
    }
}

/// The lower-case hexadecimal digit of `d` (below 16).
pub open spec fn hex_digit_char(d: nat) -> char {
    if d < 10 {
        ((d + 48) as u8) as char
    } else {
        ((d + 87) as u8) as char
    }
}

/// The lower-case hexadecimal digits of `n`, most significant first (as `{:x}`).
pub open spec fn hex(n: nat) -> Seq<char>
    decreases n,
{
    if n < 16 {
        seq![hex_digit_char(n)]
    } else {
        hex(n / 16).push(hex_digit_char(n % 16))
    }
}

/// The lower-case hexadecimal text of a number.
pub fn u128_to_hex(n: u128) -> (s: String)
    ensures
        s@ == hex(n as nat),
    decreases n,
{
    let d: u8 = (n % 16) as u8;
    let c = if d < 10 {
        (d + 48) as char
    } else {
        (d + 87) as char
    };
    if n < 16 {
        let mut s = String::new();
        push_char(&mut s, c);
        s
    } else {
        let mut s = u128_to_hex(n / 16);
        push_char(&mut s, c);
        s
    }
}

pub fn usize_to_string(n: usize) -> (s: String)
    ensures
        s@ == decimal(n as nat),
{
    u128_to_string(n as u128)
}

} // verus!

verus! {

/// Length of the leading run of non-whitespace characters.
pub open spec fn token_run(s: Seq<char>) -> nat
    decreases s.len(),
{
    if s.len() > 0 && !is_ws(s[0]) {
        1 + token_run(s.drop_first())
    } else {
        0
    }
}

pub proof fn lemma_token_run_bound(s: Seq<char>)
    ensures
        token_run(s) <= s.len(),
        s.len() > 0 && !is_ws(s[0]) ==> token_run(s) > 0,
    decreases s.len(),
{
    if s.len() > 0 && !is_ws(s[0]) {
        lemma_token_run_bound(s.drop_first());
    }
}

proof fn lemma_token_run_exact(s: Seq<char>, n: int)
    requires
        0 <= n <= s.len(),
        forall|k: int| 0 <= k < n ==> !is_ws(#[trigger] s[k]),
        n == s.len() || is_ws(s[n]),
    ensures
        token_run(s) == n,
    decreases n,
{
    if n > 0 {
        assert forall|k: int| 0 <= k < n - 1 implies !is_ws(#[trigger] s.drop_first()[k]) by {
            assert(s.drop_first()[k] == s[k + 1]);
        }
        if n < s.len() {
            assert(s.drop_first()[n - 1] == s[n]);
        }
        lemma_token_run_exact(s.drop_first(), n - 1);
    }
}

/// The maximal runs of non-whitespace characters (as `str::split_whitespace`).
pub open spec fn tokens(s: Seq<char>) -> Seq<Seq<char>>
    decreases s.len(),
{
    if s.len() == 0 {
        Seq::empty()
    } else if is_ws(s[0]) {
        tokens(s.drop_first())
    } else {
        let n = token_run(s);
        proof {
            lemma_token_run_bound(s);
        }
        seq![s.take(n as int)] + tokens(s.skip(n as int))
    }
}

/// `str::split_whitespace`.
pub fn split_whitespace(value: &str) -> (res: Vec<String>)
    ensures
        res@.len() == tokens(value@).len(),
        forall|k: int| 0 <= k < res@.len() ==> #[trigger] res@[k]@ == tokens(value@)[k],
{
    let s = chars_of(value);
    let mut out: Vec<String> = Vec::new();
    let mut i: usize = 0;
    let ghost mut done: Seq<Seq<char>> = Seq::empty();
    assert(s@.skip(0) =~= s@);
    assert(done + tokens(s@) =~= tokens(s@));
    while i < s.len()
        invariant
            s@ == value@,
            i <= s@.len(),
            out@.len() == done.len(),
            forall|k: int| 0 <= k < out@.len() ==> #[trigger] out@[k]@ == done[k],
            tokens(s@) == done + tokens(s@.skip(i as int)),
        decreases s@.len() - i,
    {
        let ghost rest = s@.skip(i as int);
        if char_is_ws(s[i]) {
            assert(rest.drop_first() =~= s@.skip(i + 1));
            i = i + 1;
        } else {
            let mut j = i;
            while j < s.len() && !char_is_ws(s[j])
                invariant
                    i <= j <= s@.len(),
                    forall|k: int| i <= k < j ==> !is_ws(#[trigger] s@[k]),
                decreases s@.len() - j,
            {
                j = j + 1;
            }
            let piece = slice_to_vec(&s, i, j);
            proof {
                assert forall|k: int| 0 <= k < j - i implies !is_ws(#[trigger] rest[k]) by {
                    assert(rest[k] == s@[k + i]);
                }
                if j < s@.len() {
                    assert(rest[j - i] == s@[j as int]);
                }
                lemma_token_run_exact(rest, j - i);
                assert(rest.take(j - i) =~= s@.subrange(i as int, j as int));
                assert(rest.skip(j - i) =~= s@.skip(j as int));
                done = done.push(piece@);
                assert(seq![piece@] + tokens(s@.skip(j as int)) == tokens(rest));
                assert(done + tokens(s@.skip(j as int)) =~= done.drop_last() + (seq![piece@]
                    + tokens(s@.skip(j as int))));
            }
            out.push(string_from(&piece));
            i = j;
        }
    }
    proof {
        assert(s@.skip(i as int).len() == 0);
        assert(done + tokens(s@.skip(i as int)) =~= done);
    }
    out
}

/// Whitespace runs collapsed to single spaces and the ends trimmed; when that
/// is longer than `max_len` characters, its first `max_len - 3` characters and `...`.
pub open spec fn summarize_spec(text: Seq<char>, max_len: nat) -> Seq<char> {
    let compact = join(tokens(text), seq![' ']);
    if compact.len() <= max_len {
        compact
    } else {
        compact.take(if max_len >= 3 { max_len - 3 } else { 0 }) + seq!['.', '.', '.']
    }
}

pub fn summarize_text(text: &str, max_len: usize) -> (res: String)
    ensures
        res@ == summarize_spec(text@, max_len as nat),
{
    let words = split_whitespace(text);
    let compact = join_strings(&words, " ");
    proof {
        reveal_strlit(" ");
        assert(" "@ =~= seq![' ']);
        assert(words@.map_values(|p: String| p@) =~= tokens(text@));
    }
    let chars = chars_of(compact.as_str());
    if chars.len() <= max_len {
        compact
    } else {
        let keep = if max_len >= 3 { max_len - 3 } else { 0 };
        let head = slice_to_vec(&chars, 0, keep);
        let mut out = string_from(&head);
        out.append("...");
        proof {
            reveal_strlit("...");
            assert("..."@ =~= seq!['.', '.', '.']);
            assert(chars@.subrange(0, keep as int) =~= chars@.take(keep as int));
        }
        out
    }
}

/// `str::chars().take(max_len)`, and `...` when characters were dropped.
pub open spec fn truncate_spec(raw: Seq<char>, max_len: nat) -> Seq<char> {
    if raw.len() > max_len {
        raw.take(max_len as int) + seq!['.', '.', '.']
    } else {
        raw
    }
}

pub fn truncate_detail(raw: &str, max_len: usize) -> (res: String)
    ensures
        res@ == truncate_spec(raw@, max_len as nat),
{
    let chars = chars_of(raw);
    if chars.len() > max_len {
        let head = slice_to_vec(&chars, 0, max_len);
        let mut out = string_from(&head);
        out.append("...");
        proof {
            reveal_strlit("...");
            assert("..."@ =~= seq!['.', '.', '.']);
            assert(chars@.subrange(0, max_len as int) =~= chars@.take(max_len as int));
        }
        out
    } else {
        raw.to_owned()
    }
}

} // verus!

verus! {

/// Every `\r\n` replaced by `\n`, scanning left to right.
pub open spec fn crlf_to_lf(s: Seq<char>) -> Seq<char>
    decreases s.len(),
{
    if s.len() == 0 {
        s
    } else if s.len() >= 2 && s[0] == '\r' && s[1] == '\n' {
        seq!['\n'] + crlf_to_lf(s.skip(2))
    } else {
        seq![s[0]] + crlf_to_lf(s.drop_first())
    }
}

/// The pieces of `s` between `\n` characters; there is always at least one.
pub open spec fn newline_pieces(s: Seq<char>) -> Seq<Seq<char>>
    decreases s.len(),
{
    if s.len() == 0 {
        seq![Seq::empty()]
    } else if s[0] == '\n' {
        seq![Seq::<char>::empty()] + newline_pieces(s.drop_first())
    } else {
        let r = newline_pieces(s.drop_first());
        r.update(0, seq![s[0]] + r[0])
    }
}

pub proof fn lemma_newline_pieces_nonempty(s: Seq<char>)
    ensures
        newline_pieces(s).len() >= 1,
    decreases s.len(),
{
    if s.len() > 0 {
        lemma_newline_pieces_nonempty(s.drop_first());
    }
}

pub open spec fn strip_cr(l: Seq<char>) -> Seq<char> {
    if l.len() > 0 && l.last() == '\r' {
        l.drop_last()
    } else {
        l
    }
}

/// `str::lines`: the pieces between newlines, without a final empty piece,
/// each without one trailing `\r`.
pub open spec fn lines_spec(s: Seq<char>) -> Seq<Seq<char>> {
    let p = newline_pieces(s);
    let q = if p.last().len() == 0 {
        p.drop_last()
    } else {
        p
    };
    q.map_values(|l: Seq<char>| strip_cr(l))
}

pub fn replace_crlf(s: &[char]) -> (res: Vec<char>)
    ensures
        res@ == crlf_to_lf(s@),
{
    let mut out: Vec<char> = Vec::new();
    let mut i: usize = 0;
    assert(s@.skip(0) =~= s@);
    while i < s.len()
        invariant
            i <= s@.len(),
            crlf_to_lf(s@) == out@ + crlf_to_lf(s@.skip(i as int)),
        decreases s@.len() - i,
    {
        let ghost rest = s@.skip(i as int);
        if s[i] == '\r' && i + 1 < s.len() && s[i + 1] == '\n' {
            out.push('\n');
            proof {
                assert(rest[0] == '\r' && rest[1] == '\n');
                assert(rest.skip(2) =~= s@.skip(i + 2));
            }
            i = i + 2;
        } else {
            out.push(s[i]);
            proof {
                assert(rest.drop_first() =~= s@.skip(i + 1));
            }
            i = i + 1;
        }
        assert(crlf_to_lf(s@) =~= out@ + crlf_to_lf(s@.skip(i as int)));
    }
    assert(out@ + crlf_to_lf(s@.skip(i as int)) =~= out@);
    out
}

/// The pieces of `s` between `\n` characters.
pub fn split_newlines(s: &[char]) -> (res: Vec<Vec<char>>)
    ensures
        res@.len() == newline_pieces(s@).len(),
        forall|k: int| 0 <= k < res@.len() ==> #[trigger] res@[k]@ == newline_pieces(s@)[k],
{
    let mut done: Vec<Vec<char>> = Vec::new();
    let mut cur: Vec<char> = Vec::new();
    let mut i: usize = 0;
    let ghost mut dv: Seq<Seq<char>> = Seq::empty();
    proof {
        assert(s@.skip(0) =~= s@);
        lemma_newline_pieces_nonempty(s@);
        let p = newline_pieces(s@);
        assert(p.update(0, Seq::<char>::empty() + p[0]) =~= p);
    }
    while i < s.len()
        invariant
            i <= s@.len(),
            done@.len() == dv.len(),
            forall|k: int| 0 <= k < done@.len() ==> #[trigger] done@[k]@ == dv[k],
            newline_pieces(s@) == dv + newline_pieces(s@.skip(i as int)).update(
                0,
                cur@ + newline_pieces(s@.skip(i as int))[0],
            ),
        decreases s@.len() - i,
    {
        let ghost rest = s@.skip(i as int);
        let ghost r = newline_pieces(rest.drop_first());
        proof {
            assert(rest.drop_first() =~= s@.skip(i + 1));
            lemma_newline_pieces_nonempty(rest.drop_first());
        }
        if s[i] == '\n' {
            proof {
                let p = newline_pieces(rest);
                assert(p =~= seq![Seq::<char>::empty()] + r);
                assert(p.update(0, cur@ + p[0]) =~= seq![cur@] + r);
                assert(r.update(0, Seq::<char>::empty() + r[0]) =~= r);
                dv = dv.push(cur@);
                assert(dv.drop_last() + (seq![cur@] + r) =~= dv + r.update(0, Seq::<char>::empty() + r[0]));
            }
            done.push(cur);
            cur = Vec::new();
        } else {
            let c = s[i];
            proof {
                let p = newline_pieces(rest);
                assert(p == r.update(0, seq![c] + r[0]));
                assert(p[0] == seq![c] + r[0]);
                assert(cur@ + (seq![c] + r[0]) =~= cur@.push(c) + r[0]);
                assert(p.update(0, cur@ + p[0]) =~= r.update(0, cur@.push(c) + r[0]));
            }
            cur.push(c);
        }
        i = i + 1;
    }
    proof {
        let p = newline_pieces(s@.skip(i as int));
        assert(s@.skip(i as int).len() == 0);
        assert(p =~= seq![Seq::<char>::empty()]);
        assert(p.update(0, cur@ + p[0]) =~= seq![cur@]);
    }
    let ghost before = dv;
    done.push(cur);
    proof {
        dv = dv.push(cur@);
        assert(newline_pieces(s@) =~= dv);
    }
    done
}

/// The lines of `text`, each indented by `spaces` spaces; an empty text
/// becomes the single line `<empty>`, and `\r\n` counts as `\n`.
pub open spec fn indent_spec(text: Seq<char>, spaces: nat) -> Seq<Seq<char>> {
    let normalized = if text.len() == 0 {
        seq!['<', 'e', 'm', 'p', 't', 'y', '>']
    } else {
        crlf_to_lf(text)
    };
    lines_spec(normalized).map_values(|l: Seq<char>| Seq::new(spaces, |i: int| ' ') + l)
}

pub fn indent_block(text: &str, spaces: usize) -> (res: Vec<String>)
    ensures
        res@.len() == indent_spec(text@, spaces as nat).len(),
        forall|k: int| 0 <= k < res@.len() ==> #[trigger] res@[k]@ == indent_spec(text@, spaces as nat)[k],
{
    let raw = chars_of(text);
    let normalized: Vec<char> = if raw.len() == 0 {
        let v = vec!['<', 'e', 'm', 'p', 't', 'y', '>'];
        assert(v@ =~= seq!['<', 'e', 'm', 'p', 't', 'y', '>']);
        v
    } else {
        replace_crlf(&raw)
    };
    let mut prefix: Vec<char> = Vec::new();
    let mut p: usize = 0;
    while p < spaces
        invariant
            p <= spaces,
            prefix@ == Seq::new(p as nat, |i: int| ' '),
        decreases spaces - p,
    {
        prefix.push(' ');
        p = p + 1;
        assert(prefix@ =~= Seq::new(p as nat, |i: int| ' '));
    }
    let pieces = split_newlines(&normalized);
    let ghost ps = newline_pieces(normalized@);
    let mut count = pieces.len();
    proof {
        lemma_newline_pieces_nonempty(normalized@);
    }
    if pieces[count - 1].len() == 0 {
        count = count - 1;
    }
    let ghost q = if ps.last().len() == 0 { ps.drop_last() } else { ps };
    let ghost spec = indent_spec(text@, spaces as nat);
    assert(q.len() == count);
    let mut out: Vec<String> = Vec::new();
    let mut k: usize = 0;
    while k < count
        invariant
            k <= count <= pieces@.len(),
            q.len() == count,
            pieces@.len() == ps.len(),
            forall|j: int| 0 <= j < pieces@.len() ==> #[trigger] pieces@[j]@ == ps[j],
            forall|j: int| 0 <= j < count ==> q[j] == ps[j],
            spec == q.map_values(|l: Seq<char>| strip_cr(l)).map_values(|l: Seq<char>| Seq::new(spaces as nat, |i: int| ' ') + l),
            prefix@ == Seq::new(spaces as nat, |i: int| ' '),
            out@.len() == k,
            forall|j: int| 0 <= j < k ==> #[trigger] out@[j]@ == spec[j],
        decreases count - k,
    {
        let line = &pieces[k];
        let mut end = line.len();
        if end > 0 && line[end - 1] == '\r' {
            end = end - 1;
        }
        let body = slice_to_vec(line, 0, end);
        let mut full = string_from(&prefix);
        let body_s = string_from(&body);
        full.append(body_s.as_str());
        proof {
            assert(body@ =~= strip_cr(ps[k as int]));
            assert(full@ =~= spec[k as int]);
        }
        out.push(full);
        k = k + 1;
    }
    out
}

// ---------------------------------------------------------------------------
// Paths
// ---------------------------------------------------------------------------

/// `Path::join` on `/`-separated paths: an absolute `rel` replaces `base`;
/// otherwise one separator is put between them unless `base` is empty or
/// already ends with one.
pub open spec fn join_path_spec(base: Seq<char>, rel: Seq<char>) -> Seq<char> {
    if rel.len() > 0 && rel[0] == '/' {
        rel
    } else if base.len() == 0 || base.last() == '/' {
        base + rel
    } else {
        base + seq!['/'] + rel
    }
}

pub fn join_path(base: &str, rel: &str) -> (res: String)
    ensures
        res@ == join_path_spec(base@, rel@),
{
    let r = chars_of(rel);
    let b = chars_of(base);
    if r.len() > 0 && r[0] == '/' {
        return rel.to_owned();
    }
    if b.len() == 0 || b[b.len() - 1] == '/' {
        return concat(base, rel);
    }
    let s = cat3(base, "/", rel);
    proof {
        reveal_strlit("/");
        assert("/"@ =~= seq!['/']);
    }
    s
}

// ---------------------------------------------------------------------------
// Replacing
// ---------------------------------------------------------------------------

/// `s[off..]` with every occurrence of `p`, left to right and without
/// overlaps, replaced by `r`.
pub open spec fn replace_from(s: Seq<char>, p: Seq<char>, r: Seq<char>, off: int) -> Seq<char>
    decreases s.len() - off,
{
    if off < 0 || off > s.len() {
        seq![]
    } else {
        match occurrence_from(s, p, off) {
            None => s.subrange(off, s.len() as int),
            Some(i) => if p.len() > 0 && i >= off {
                proof {
                    lemma_occurrence_from_bounds(s, p, off);
                }
                s.subrange(off, i) + r + replace_from(s, p, r, i + p.len())
            } else {
                s.subrange(off, s.len() as int)
            },
        }
    }
}

/// `str::replace` for a non-empty pattern.
pub open spec fn replace_spec(s: Seq<char>, p: Seq<char>, r: Seq<char>) -> Seq<char> {
    replace_from(s, p, r, 0)
}

pub fn replace_all(s: &str, p: &str, r: &str) -> (res: String)
    requires
        p@.len() > 0,
    ensures
        res@ == replace_spec(s@, p@, r@),
{
    let sv = chars_of(s);
    let pv = chars_of(p);
    let n = sv.len();
    let mut out = String::new();
    let mut off: usize = 0;
    proof {
        assert(sv@.subrange(0, 0) =~= Seq::<char>::empty());
    }
    loop
        invariant_except_break
            out@ + replace_from(s@, p@, r@, off as int) == replace_spec(s@, p@, r@),
        invariant
            sv@ == s@,
            pv@ == p@,
            p@.len() > 0,
            n == sv@.len(),
            off <= n,
        ensures
            out@ == replace_spec(s@, p@, r@),
        decreases n - off,
    {
        match find_str_from(&sv, &pv, off) {
            None => {
                let tail = slice_to_vec(&sv, off, n);
                let ts = string_from(&tail);
                let ghost before = out@;
                out.append(ts.as_str());
                proof {
                    assert(out@ =~= before + replace_from(s@, p@, r@, off as int));
                }
                assert(out@ == replace_spec(s@, p@, r@));
                break;
            },
            Some(i) => {
                let piece = slice_to_vec(&sv, off, i);
                let ps = string_from(&piece);
                let ghost before = out@;
                out.append(ps.as_str());
                out.append(r);
                proof {
                    assert(replace_from(s@, p@, r@, off as int) == s@.subrange(off as int, i as int) + r@
                        + replace_from(s@, p@, r@, i + p@.len()));
                    assert(out@ =~= before + s@.subrange(off as int, i as int) + r@);
                    assert(before + replace_from(s@, p@, r@, off as int) =~= out@ + replace_from(
                        s@,
                        p@,
                        r@,
                        i + p@.len(),
                    ));
                }
                off = i + pv.len();
            },
        }
    }
    out
}

/// Joining a relative path never leaves the base: the base is a prefix of
/// the result.
pub proof fn law_join_stays_under_base(base: Seq<char>, rel: Seq<char>)
    requires
        rel.len() == 0 || rel[0] != '/',
    ensures
        has_prefix(join_path_spec(base, rel), base),
{
    let j = join_path_spec(base, rel);
    assert(j.subrange(0, base.len() as int) =~= base);
}

proof fn lemma_minimal_occurrence(s: Seq<char>, p: Seq<char>, k: int)
    requires
        occurs_at(s, p, k),
    ensures
        exists|i: int| occurs_at(s, p, i) && forall|j: int| 0 <= j < i ==> !occurs_at(s, p, j),
    decreases k,
{
    if exists|j: int| 0 <= j < k && occurs_at(s, p, j) {
        let j = choose|j: int| 0 <= j < k && occurs_at(s, p, j);
        lemma_minimal_occurrence(s, p, j);
    } else {
        assert(occurs_at(s, p, k) && forall|j: int| 0 <= j < k ==> !occurs_at(s, p, j));
    }
}

/// The first occurrence of `p` in `s` is an occurrence, and no earlier index is one.
pub proof fn lemma_first_occurrence(s: Seq<char>, p: Seq<char>)
    ensures
        first_occurrence(s, p) matches Some(i) ==> occurs_at(s, p, i) && forall|j: int|
            0 <= j < i ==> !occurs_at(s, p, j),
        first_occurrence(s, p) is None ==> forall|j: int| !occurs_at(s, p, j),
{
    if exists|i: int| occurs_at(s, p, i) {
        let k = choose|i: int| occurs_at(s, p, i);
        lemma_minimal_occurrence(s, p, k);
    }
}

} // verus!
