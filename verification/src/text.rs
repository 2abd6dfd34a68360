//! Characters and strings as sequences of `char`: the whitespace rules, trimming,
//! searching and whitespace tokenizing that the console parsers rely on.

use vstd::prelude::*;
use vstd::string::*;

verus! {

/// Unicode `White_Space`, the set that `char::is_whitespace` tests.
pub open spec fn is_ws(c: char) -> bool {
    ||| c == ' '
    ||| ('\t' <= c && c <= '\r')
    ||| c == '\u{85}'
    ||| c == '\u{a0}'
    ||| c == '\u{1680}'
    ||| ('\u{2000}' <= c && c <= '\u{200a}')
    ||| c == '\u{2028}'
    ||| c == '\u{2029}'
    ||| c == '\u{202f}'
    ||| c == '\u{205f}'
    ||| c == '\u{3000}'
}

pub fn is_whitespace_char(c: char) -> (b: bool)
    ensures
        b == is_ws(c),
{
    c == ' ' || ('\t' <= c && c <= '\r') || c == '\u{85}' || c == '\u{a0}' || c == '\u{1680}'
        || ('\u{2000}' <= c && c <= '\u{200a}') || c == '\u{2028}' || c == '\u{2029}' || c
        == '\u{202f}' || c == '\u{205f}' || c == '\u{3000}'
}

/// The characters of a string slice.
pub fn chars_of(s: &str) -> (v: Vec<char>)
    ensures
        v@ == s@,
{
    let n = s.unicode_len();
    let mut v: Vec<char> = Vec::new();
    let mut i: usize = 0;
    while i < n
        invariant
            n == s@.len(),
            i <= n,
            v@ == s@.take(i as int),
        decreases n - i,
    {
        let c = s.get_char(i);
        v.push(c);
        i = i + 1;
        assert(v@ =~= s@.take(i as int));
    }
    assert(v@ =~= s@);
    v
}


/// Index of the first character at or after `i` that is not whitespace (or the length).
pub open spec fn skip_ws_from(s: Seq<char>, i: int) -> int
    decreases s.len() - i,
{
    if 0 <= i < s.len() && is_ws(s[i]) {
        skip_ws_from(s, i + 1)
    } else {
        i
    }
}

/// Length of `s` once the whitespace at its end is dropped, looking at the first `j` chars.
pub open spec fn trim_end_len(s: Seq<char>, j: int) -> int
    decreases j,
{
    if 0 < j <= s.len() && is_ws(s[j - 1]) {
        trim_end_len(s, j - 1)
    } else {
        j
    }
}

/// `str::trim_start`: the leading whitespace removed.
pub open spec fn trim_start(s: Seq<char>) -> Seq<char> {
    s.skip(skip_ws_from(s, 0))
}

/// `str::trim_end`: the trailing whitespace removed.
pub open spec fn trim_end(s: Seq<char>) -> Seq<char> {
    s.take(trim_end_len(s, s.len() as int))
}

/// `str::trim`: whitespace removed at both ends.
pub open spec fn trim(s: Seq<char>) -> Seq<char> {
    trim_end(trim_start(s))
}

pub proof fn lemma_skip_ws_from_bounds(s: Seq<char>, i: int)
    requires
        0 <= i <= s.len(),
    ensures
        i <= skip_ws_from(s, i) <= s.len(),
        forall|k: int| i <= k < skip_ws_from(s, i) ==> is_ws(#[trigger] s[k]),
        skip_ws_from(s, i) < s.len() ==> !is_ws(s[skip_ws_from(s, i)]),
    decreases s.len() - i,
{
    if i < s.len() && is_ws(s[i]) {
        lemma_skip_ws_from_bounds(s, i + 1);
    }
}

pub proof fn lemma_trim_end_len_bounds(s: Seq<char>, j: int)
    requires
        0 <= j <= s.len(),
    ensures
        0 <= trim_end_len(s, j) <= j,
        forall|k: int| trim_end_len(s, j) <= k < j ==> is_ws(#[trigger] s[k]),
        trim_end_len(s, j) > 0 ==> !is_ws(s[trim_end_len(s, j) - 1]),
    decreases j,
{
    if 0 < j && is_ws(s[j - 1]) {
        lemma_trim_end_len_bounds(s, j - 1);
    }
}

/// The characters of `v` from `a` up to `b`.
pub fn sub_chars(v: &Vec<char>, a: usize, b: usize) -> (r: Vec<char>)
    requires
        a <= b <= v.len(),
    ensures
        r@ == v@.subrange(a as int, b as int),
{
    let mut r: Vec<char> = Vec::new();
    let mut i: usize = a;
    while i < b
        invariant
            a <= i <= b,
            b <= v.len(),
            r@ == v@.subrange(a as int, i as int),
        decreases b - i,
    {
        r.push(v[i]);
        i = i + 1;
        assert(r@ =~= v@.subrange(a as int, i as int));
    }
    r
}

/// Index of the first non-whitespace character of `v` (or its length).
pub fn first_non_ws(v: &Vec<char>) -> (i: usize)
    ensures
        i == skip_ws_from(v@, 0),
        i <= v.len(),
{
    let mut i: usize = 0;
    while i < v.len() && is_whitespace_char(v[i])
        invariant
            i <= v.len(),
            skip_ws_from(v@, i as int) == skip_ws_from(v@, 0),
        decreases v.len() - i,
    {
        i = i + 1;
    }
    i
}

/// Length of `v` without its trailing whitespace.
pub fn trimmed_end_len(v: &Vec<char>) -> (j: usize)
    ensures
        j == trim_end_len(v@, v.len() as int),
        j <= v.len(),
{
    let mut j: usize = v.len();
    while j > 0 && is_whitespace_char(v[j - 1])
        invariant
            j <= v.len(),
            trim_end_len(v@, j as int) == trim_end_len(v@, v.len() as int),
        decreases j,
    {
        j = j - 1;
    }
    j
}

pub fn trim_start_chars(v: &Vec<char>) -> (r: Vec<char>)
    ensures
        r@ == trim_start(v@),
{
    let i = first_non_ws(v);
    let r = sub_chars(v, i, v.len());
    assert(r@ =~= trim_start(v@));
    r
}

pub fn trim_end_chars(v: &Vec<char>) -> (r: Vec<char>)
    ensures
        r@ == trim_end(v@),
{
    let j = trimmed_end_len(v);
    let r = sub_chars(v, 0, j);
    assert(r@ =~= trim_end(v@));
    r
}

pub fn trim_chars(v: &Vec<char>) -> (r: Vec<char>)
    ensures
        r@ == trim(v@),
{
    let t = trim_start_chars(v);
    trim_end_chars(&t)
}


pub open spec fn is_digit(c: char) -> bool {
    '0' <= c && c <= '9'
}

pub open spec fn is_hex_digit(c: char) -> bool {
    is_digit(c) || ('a' <= c && c <= 'f') || ('A' <= c && c <= 'F')
}

/// Some character of `t` is an ASCII digit.
pub open spec fn has_digit(t: Seq<char>) -> bool {
    exists|k: int| 0 <= k < t.len() && is_digit(#[trigger] t[k])
}

/// Some character of `t` is an ASCII hexadecimal digit.
pub open spec fn has_hex_digit(t: Seq<char>) -> bool {
    exists|k: int| 0 <= k < t.len() && is_hex_digit(#[trigger] t[k])
}

/// `c` occurs in `t`.
pub open spec fn has_char(t: Seq<char>, c: char) -> bool {
    exists|k: int| 0 <= k < t.len() && #[trigger] t[k] == c
}

pub open spec fn starts_with(s: Seq<char>, p: Seq<char>) -> bool {
    p.len() <= s.len() && s.take(p.len() as int) == p
}

pub open spec fn ends_with(s: Seq<char>, p: Seq<char>) -> bool {
    p.len() <= s.len() && s.skip(s.len() - p.len()) == p
}

/// `p` occurs in `s` as a contiguous run.
pub open spec fn contains(s: Seq<char>, p: Seq<char>) -> bool {
    exists|i: int| 0 <= i && i + p.len() <= s.len() && #[trigger] s.subrange(i, i + p.len()) == p
}

pub fn is_ascii_digit(c: char) -> (b: bool)
    ensures
        b == is_digit(c),
{
    '0' <= c && c <= '9'
}

pub fn is_ascii_hex_digit(c: char) -> (b: bool)
    ensures
        b == is_hex_digit(c),
{
    ('0' <= c && c <= '9') || ('a' <= c && c <= 'f') || ('A' <= c && c <= 'F')
}

pub fn any_digit(t: &Vec<char>) -> (b: bool)
    ensures
        b == has_digit(t@),
{
    let mut i: usize = 0;
    while i < t.len()
        invariant
            i <= t.len(),
            forall|k: int| 0 <= k < i ==> !is_digit(#[trigger] t@[k]),
        decreases t.len() - i,
    {
        if is_ascii_digit(t[i]) {
            return true;
        }
        i = i + 1;
    }
    false
}

pub fn any_hex_digit(t: &Vec<char>) -> (b: bool)
    ensures
        b == has_hex_digit(t@),
{
    let mut i: usize = 0;
    while i < t.len()
        invariant
            i <= t.len(),
            forall|k: int| 0 <= k < i ==> !is_hex_digit(#[trigger] t@[k]),
        decreases t.len() - i,
    {
        if is_ascii_hex_digit(t[i]) {
            return true;
        }
        i = i + 1;
    }
    false
}

pub fn any_char(t: &Vec<char>, c: char) -> (b: bool)
    ensures
        b == has_char(t@, c),
{
    let mut i: usize = 0;
    while i < t.len()
        invariant
            i <= t.len(),
            forall|k: int| 0 <= k < i ==> #[trigger] t@[k] != c,
        decreases t.len() - i,
    {
        if t[i] == c {
            return true;
        }
        i = i + 1;
    }
    false
}

/// `p` occurs in `s` starting at index `i`.
pub fn matches_at(s: &Vec<char>, p: &Vec<char>, i: usize) -> (b: bool)
    requires
        i + p.len() <= s.len(),
    ensures
        b == (s@.subrange(i as int, i + p.len()) == p@),
{
    let mut k: usize = 0;
    while k < p.len()
        invariant
            k <= p.len(),
            i + p.len() <= s.len(),
            forall|m: int| 0 <= m < k ==> s@[i + m] == p@[m],
        decreases p.len() - k,
    {
        if s[i + k] != p[k] {
            assert(s@.subrange(i as int, i + p.len())[k as int] != p@[k as int]);
            return false;
        }
        k = k + 1;
    }
    assert(s@.subrange(i as int, i + p.len()) =~= p@);
    true
}

pub fn starts_with_chars(s: &Vec<char>, p: &Vec<char>) -> (b: bool)
    ensures
        b == starts_with(s@, p@),
{
    if p.len() > s.len() {
        return false;
    }
    let b = matches_at(s, p, 0);
    assert(s@.subrange(0, p.len() as int) =~= s@.take(p.len() as int));
    b
}

pub fn ends_with_chars(s: &Vec<char>, p: &Vec<char>) -> (b: bool)
    ensures
        b == ends_with(s@, p@),
{
    if p.len() > s.len() {
        return false;
    }
    let b = matches_at(s, p, s.len() - p.len());
    assert(s@.subrange(s.len() - p.len(), s.len() - p.len() + p.len()) =~= s@.skip(
        s.len() - p.len(),
    ));
    b
}

pub fn contains_chars(s: &Vec<char>, p: &Vec<char>) -> (b: bool)
    ensures
        b == contains(s@, p@),
{
    if p.len() > s.len() {
        return false;
    }
    let last: usize = s.len() - p.len();
    let mut i: usize = 0;
    loop
        invariant
            last == s.len() - p.len(),
            p.len() <= s.len(),
            i <= last,
            forall|j: int| 0 <= j < i ==> #[trigger] s@.subrange(j, j + p.len()) != p@,
        decreases last - i,
    {
        if matches_at(s, p, i) {
            return true;
        }
        if i == last {
            assert forall|j: int| 0 <= j && j + p.len() <= s.len() implies #[trigger] s@.subrange(
                j,
                j + p.len(),
            ) != p@ by {
                assert(j <= last);
            }
            return false;
        }
        i = i + 1;
    }
}

pub fn starts_with_str(s: &Vec<char>, p: &str) -> (b: bool)
    ensures
        b == starts_with(s@, p@),
{
    let pc = chars_of(p);
    starts_with_chars(s, &pc)
}

pub fn contains_str(s: &Vec<char>, p: &str) -> (b: bool)
    ensures
        b == contains(s@, p@),
{
    let pc = chars_of(p);
    contains_chars(s, &pc)
}

pub fn eq_str(s: &Vec<char>, p: &str) -> (b: bool)
    ensures
        b == (s@ == p@),
{
    let pc = chars_of(p);
    if s.len() != pc.len() {
        return false;
    }
    let b = matches_at(s, &pc, 0);
    assert(s@.subrange(0, pc.len() as int) =~= s@);
    b
}

pub fn same_chars(a: &Vec<char>, b: &Vec<char>) -> (r: bool)
    ensures
        r == (a@ == b@),
{
    if a.len() != b.len() {
        return false;
    }
    let r = matches_at(a, b, 0);
    assert(a@.subrange(0, b.len() as int) =~= a@);
    r
}

/// Builds a `String` from its characters.
#[verifier::external_body]
pub(crate) fn string_of(v: &Vec<char>) -> (s: String)
    ensures
        s@ == v@,
{
    String::from_iter(v.iter())
}


/// Index of the first `c` at or after `i` (the length when there is none).
pub open spec fn index_of_from(s: Seq<char>, c: char, i: int) -> int
    decreases s.len() - i,
{
    if 0 <= i < s.len() {
        if s[i] == c {
            i
        } else {
            index_of_from(s, c, i + 1)
        }
    } else {
        s.len() as int
    }
}

/// What follows the first `c` in `s`, as `s.splitn(2, c).nth(1)` gives it.
pub open spec fn after_char(s: Seq<char>, c: char) -> Option<Seq<char>> {
    let k = index_of_from(s, c, 0);
    if k < s.len() {
        Some(s.skip(k + 1))
    } else {
        None
    }
}

/// What precedes the first `c` in `s` (all of `s` when there is none).
pub open spec fn before_char(s: Seq<char>, c: char) -> Seq<char> {
    s.take(index_of_from(s, c, 0))
}

pub proof fn lemma_index_of_from(s: Seq<char>, c: char, i: int)
    requires
        0 <= i <= s.len(),
    ensures
        i <= index_of_from(s, c, i) <= s.len(),
        index_of_from(s, c, i) < s.len() ==> s[index_of_from(s, c, i)] == c,
        forall|k: int| i <= k < index_of_from(s, c, i) ==> #[trigger] s[k] != c,
    decreases s.len() - i,
{
    if i < s.len() && s[i] != c {
        lemma_index_of_from(s, c, i + 1);
    }
}

/// Index of the first `c` in `v` (its length when there is none).
pub fn index_of_char(v: &Vec<char>, c: char) -> (k: usize)
    ensures
        k == index_of_from(v@, c, 0),
        k <= v.len(),
{
    let mut i: usize = 0;
    while i < v.len() && v[i] != c
        invariant
            i <= v.len(),
            index_of_from(v@, c, i as int) == index_of_from(v@, c, 0),
        decreases v.len() - i,
    {
        i = i + 1;
    }
    i
}

pub fn after_char_chars(v: &Vec<char>, c: char) -> (r: Option<Vec<char>>)
    ensures
        match r {
            Some(t) => after_char(v@, c) == Some(t@),
            None => after_char(v@, c) is None,
        },
{
    let k = index_of_char(v, c);
    if k < v.len() {
        let t = sub_chars(v, k + 1, v.len());
        assert(t@ =~= v@.skip(k + 1));
        Some(t)
    } else {
        None
    }
}

/// `s.trim_matches(c)`: every `c` at either end removed.
pub open spec fn trim_char(s: Seq<char>, c: char) -> Seq<char> {
    let a = skip_char_from(s, c, 0);
    s.subrange(a, strip_char_end_len(s, c, a, s.len() as int))
}

pub open spec fn skip_char_from(s: Seq<char>, c: char, i: int) -> int
    decreases s.len() - i,
{
    if 0 <= i < s.len() && s[i] == c {
        skip_char_from(s, c, i + 1)
    } else {
        i
    }
}

pub open spec fn strip_char_end_len(s: Seq<char>, c: char, lo: int, j: int) -> int
    decreases j - lo,
{
    if lo < j && j <= s.len() && s[j - 1] == c {
        strip_char_end_len(s, c, lo, j - 1)
    } else {
        j
    }
}

pub proof fn lemma_skip_char_from(s: Seq<char>, c: char, i: int)
    requires
        0 <= i <= s.len(),
    ensures
        i <= skip_char_from(s, c, i) <= s.len(),
    decreases s.len() - i,
{
    if i < s.len() && s[i] == c {
        lemma_skip_char_from(s, c, i + 1);
    }
}

pub proof fn lemma_strip_char_end_len(s: Seq<char>, c: char, lo: int, j: int)
    requires
        0 <= lo <= j <= s.len(),
    ensures
        lo <= strip_char_end_len(s, c, lo, j) <= j,
    decreases j - lo,
{
    if lo < j && s[j - 1] == c {
        lemma_strip_char_end_len(s, c, lo, j - 1);
    }
}

pub fn trim_char_chars(v: &Vec<char>, c: char) -> (r: Vec<char>)
    ensures
        r@ == trim_char(v@, c),
{
    let mut a: usize = 0;
    while a < v.len() && v[a] == c
        invariant
            a <= v.len(),
            skip_char_from(v@, c, a as int) == skip_char_from(v@, c, 0),
        decreases v.len() - a,
    {
        a = a + 1;
    }
    let mut j: usize = v.len();
    while a < j && v[j - 1] == c
        invariant
            a <= j <= v.len(),
            strip_char_end_len(v@, c, a as int, j as int) == strip_char_end_len(
                v@,
                c,
                a as int,
                v.len() as int,
            ),
        decreases j,
    {
        j = j - 1;
    }
    sub_chars(v, a, j)
}

/// `s.trim_start_matches("0x")`: every leading `0x` pair removed.
pub open spec fn strip_hex_prefix(s: Seq<char>) -> Seq<char>
    decreases s.len(),
{
    if s.len() >= 2 && s[0] == '0' && s[1] == 'x' {
        strip_hex_prefix(s.skip(2))
    } else {
        s
    }
}

pub fn strip_hex_prefix_chars(v: &Vec<char>) -> (r: Vec<char>)
    ensures
        r@ == strip_hex_prefix(v@),
{
    let mut i: usize = 0;
    assert(v@.skip(0) =~= v@);
    while v.len() - i >= 2 && v[i] == '0' && v[i + 1] == 'x'
        invariant
            i <= v.len(),
            strip_hex_prefix(v@.skip(i as int)) == strip_hex_prefix(v@),
        decreases v.len() - i,
    {
        assert(v@.skip(i as int).skip(2) =~= v@.skip(i + 2));
        i = i + 2;
    }
    assert(v@.skip(i as int) =~= v@.subrange(i as int, v.len() as int));
    sub_chars(v, i, v.len())
}

/// The character sequences that a list of character vectors holds.
pub open spec fn views(v: Seq<Vec<char>>) -> Seq<Seq<char>> {
    v.map_values(|t: Vec<char>| t@)
}

/// State of `split_whitespace` after the first `n` characters: the finished tokens and
/// the token being read.
pub open spec fn ws_split_fold(s: Seq<char>, n: int) -> (Seq<Seq<char>>, Seq<char>)
    decreases n,
{
    if n <= 0 {
        (seq![], seq![])
    } else {
        let (done, cur) = ws_split_fold(s, n - 1);
        if is_ws(s[n - 1]) {
            if cur.len() > 0 {
                (done.push(cur), seq![])
            } else {
                (done, cur)
            }
        } else {
            (done, cur.push(s[n - 1]))
        }
    }
}

/// `str::split_whitespace`: the maximal runs of non-whitespace characters, in order.
pub open spec fn split_whitespace(s: Seq<char>) -> Seq<Seq<char>> {
    let (done, cur) = ws_split_fold(s, s.len() as int);
    if cur.len() > 0 {
        done.push(cur)
    } else {
        done
    }
}

pub fn split_whitespace_chars(v: &Vec<char>) -> (r: Vec<Vec<char>>)
    ensures
        views(r@) == split_whitespace(v@),
{
    let mut done: Vec<Vec<char>> = Vec::new();
    let mut cur: Vec<char> = Vec::new();
    let mut i: usize = 0;
    while i < v.len()
        invariant
            i <= v.len(),
            (views(done@), cur@) == ws_split_fold(v@, i as int),
        decreases v.len() - i,
    {
        let c = v[i];
        if is_whitespace_char(c) {
            if cur.len() > 0 {
                let ghost d0 = views(done@);
                let t = cur;
                done.push(t);
                cur = Vec::new();
                assert(views(done@) =~= d0.push(t@));
            }
        } else {
            cur.push(c);
        }
        i = i + 1;
    }
    if cur.len() > 0 {
        let ghost d0 = views(done@);
        let t = cur;
        done.push(t);
        assert(views(done@) =~= d0.push(t@));
    }
    done
}

/// The first token at or after `i` that holds an ASCII digit.
pub open spec fn first_digit_token_from(toks: Seq<Seq<char>>, i: int) -> Option<Seq<char>>
    decreases toks.len() - i,
{
    if 0 <= i < toks.len() {
        if has_digit(toks[i]) {
            Some(toks[i])
        } else {
            first_digit_token_from(toks, i + 1)
        }
    } else {
        None
    }
}

/// The first whitespace-separated token of `s` that holds an ASCII digit.
pub open spec fn first_digit_token(s: Seq<char>) -> Option<Seq<char>> {
    first_digit_token_from(split_whitespace(s), 0)
}

pub fn first_digit_token_chars(v: &Vec<char>) -> (r: Option<Vec<char>>)
    ensures
        match r {
            Some(t) => first_digit_token(v@) == Some(t@),
            None => first_digit_token(v@) is None,
        },
{
    let toks = split_whitespace_chars(v);
    let mut i: usize = 0;
    while i < toks.len()
        invariant
            i <= toks.len(),
            views(toks@) == split_whitespace(v@),
            first_digit_token_from(views(toks@), i as int) == first_digit_token(v@),
        decreases toks.len() - i,
    {
        assert(views(toks@)[i as int] == toks@[i as int]@);
        if any_digit(&toks[i]) {
            let t = sub_chars(&toks[i], 0, toks[i].len());
            assert(t@ =~= toks@[i as int]@);
            return Some(t);
        }
        i = i + 1;
    }
    None
}

/// The first whitespace-separated token of `s`, or nothing when there is none.
pub open spec fn first_token_or_empty(s: Seq<char>) -> Seq<char> {
    if split_whitespace(s).len() > 0 {
        split_whitespace(s)[0]
    } else {
        seq![]
    }
}

pub fn first_token_or_empty_chars(v: &Vec<char>) -> (r: Vec<char>)
    ensures
        r@ == first_token_or_empty(v@),
{
    let toks = split_whitespace_chars(v);
    if toks.len() > 0 {
        assert(views(toks@)[0] == toks@[0]@);
        let t = sub_chars(&toks[0], 0, toks[0].len());
        assert(t@ =~= toks@[0]@);
        t
    } else {
        Vec::new()
    }
}


pub open spec fn is_upper(c: char) -> bool {
    'A' <= c && c <= 'Z'
}

/// `char::to_ascii_lowercase`.
pub open spec fn lower(c: char) -> char {
    if is_upper(c) {
        ((c as int) + 32) as char
    } else {
        c
    }
}

/// `str::to_ascii_lowercase`.
pub open spec fn ascii_lower(s: Seq<char>) -> Seq<char> {
    s.map_values(|c: char| lower(c))
}

pub fn lower_char(c: char) -> (r: char)
    ensures
        r == lower(c),
{
    if 'A' <= c && c <= 'Z' {
        ((c as u8) + 32) as char
    } else {
        c
    }
}

pub fn lower_chars(v: &Vec<char>) -> (r: Vec<char>)
    ensures
        r@ == ascii_lower(v@),
{
    let mut r: Vec<char> = Vec::new();
    let mut i: usize = 0;
    while i < v.len()
        invariant
            i <= v.len(),
            r@ == ascii_lower(v@.take(i as int)),
        decreases v.len() - i,
    {
        r.push(lower_char(v[i]));
        i = i + 1;
        assert(r@ =~= ascii_lower(v@.take(i as int)));
    }
    assert(v@.take(v.len() as int) =~= v@);
    r
}

} // verus!
