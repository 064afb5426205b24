//! Character-level text utilities shared by the line parsers and the path
//! normalizer: character classes, substring search, and trimming, each with a
//! full functional specification.
use vstd::prelude::*;
use vstd::string::StrSliceExecFns;

verus! {

/// ASCII whitespace, the class the log grammar treats as blank.
pub open spec fn is_wsp(c: char) -> bool {
    c == ' ' || c == '\t' || c == '\n' || c == '\r' || c == '\u{b}' || c == '\u{c}'
}

/// ASCII decimal digit.
pub open spec fn is_digit(c: char) -> bool {
    '0' as u32 <= c as u32 && c as u32 <= '9' as u32
}

/// ASCII word character: letter, digit or underscore.
pub open spec fn is_word(c: char) -> bool {
    ('a' as u32 <= c as u32 && c as u32 <= 'z' as u32)
    || ('A' as u32 <= c as u32 && c as u32 <= 'Z' as u32)
    || is_digit(c)
    || c == '_'
}

/// Executable test for `is_wsp`.
pub fn wsp_char(c: char) -> (r: bool)
    ensures
        r == is_wsp(c),
{
    c == ' ' || c == '\t' || c == '\n' || c == '\r' || c == '\u{b}' || c == '\u{c}'
}

/// Executable test for `is_digit`.
pub fn digit_char(c: char) -> (r: bool)
    ensures
        r == is_digit(c),
{
    '0' <= c && c <= '9'
}

/// Executable test for `is_word`.
pub fn word_char(c: char) -> (r: bool)
    ensures
        r == is_word(c),
{
    ('a' <= c && c <= 'z') || ('A' <= c && c <= 'Z') || ('0' <= c && c <= '9') || c == '_'
}

/// `pat` occurs in `s` starting at position `i`.
pub open spec fn matches_at(s: Seq<char>, pat: Seq<char>, i: int) -> bool {
    0 <= i && i + pat.len() <= s.len() && s.subrange(i, i + pat.len()) == pat
}

/// `pat` occurs somewhere in `s` at or after position `from`.
pub open spec fn has_match_from(s: Seq<char>, pat: Seq<char>, from: int) -> bool {
    exists|i: int| from <= i && matches_at(s, pat, i)
}

/// `i` is the first occurrence of `pat` in `s` at or after `from`.
pub open spec fn is_first_match_from(s: Seq<char>, pat: Seq<char>, from: int, i: int) -> bool {
    &&& from <= i
    &&& matches_at(s, pat, i)
    &&& forall|j: int| from <= j < i ==> !matches_at(s, pat, j)
}

/// `i` is the last occurrence of `pat` in `s` at or after `from`.
pub open spec fn is_last_match_from(s: Seq<char>, pat: Seq<char>, from: int, i: int) -> bool {
    &&& from <= i
    &&& matches_at(s, pat, i)
    &&& forall|j: int| j > i ==> !matches_at(s, pat, j)
}

/// Where some occurrence exists, a first occurrence exists.
pub proof fn lemma_first_match_exists(s: Seq<char>, pat: Seq<char>, i: int)
    requires
        matches_at(s, pat, i),
    ensures
        exists|k: int| is_first_match_from(s, pat, 0, k),
    decreases i,
{
    if forall|j: int| 0 <= j < i ==> !matches_at(s, pat, j) {
        assert(is_first_match_from(s, pat, 0, i));
    } else {
        let j = choose|j: int| 0 <= j < i && matches_at(s, pat, j);
        lemma_first_match_exists(s, pat, j);
    }
}

/// Two first occurrences are the same occurrence.
pub proof fn lemma_first_match_unique(s: Seq<char>, pat: Seq<char>, from: int, i1: int, i2: int)
    requires
        is_first_match_from(s, pat, from, i1),
        is_first_match_from(s, pat, from, i2),
    ensures
        i1 == i2,
{
}

/// Does `pat` occur at position `i` of `s`?
pub fn occurs_at(s: &str, pat: &str, i: usize) -> (r: bool)
    ensures
        r == matches_at(s@, pat@, i as int),
{
    let n = s.unicode_len();
    let m = pat.unicode_len();
    if i > n || m > n - i {
        return false;
    }
    let mut j: usize = 0;
    while j < m
        invariant
            j <= m,
            i + m <= n,
            n == s@.len(),
            m == pat@.len(),
            forall|k: int| 0 <= k < j ==> s@[i + k] == pat@[k],
        decreases m - j,
    {
        if s.get_char(i + j) != pat.get_char(j) {
            assert(s@.subrange(i as int, i + m) != pat@) by {
                assert(s@.subrange(i as int, i + m)[j as int] == s@[i + j]);
            }
            return false;
        }
        j += 1;
    }
    assert(s@.subrange(i as int, i + m) =~= pat@);
    true
}

/// Position of the first occurrence of `pat` in `s` at or after `from`,
/// or `None` when there is none.
pub fn find_first(s: &str, pat: &str, from: usize) -> (r: Option<usize>)
    ensures
        match r {
            Some(i) => is_first_match_from(s@, pat@, from as int, i as int),
            None => !has_match_from(s@, pat@, from as int),
        },
{
    let n = s.unicode_len();
    if from > n {
        return None;
    }
    let mut i: usize = from;
    loop
        invariant
            from <= i <= n,
            n == s@.len(),
            forall|j: int| from <= j < i ==> !matches_at(s@, pat@, j),
        decreases n - i,
    {
        if occurs_at(s, pat, i) {
            return Some(i);
        }
        if i == n {
            return None;
        }
        i += 1;
    }
}

/// Position of the last occurrence of `pat` in `s` at or after `from`,
/// or `None` when there is none.
pub fn find_last(s: &str, pat: &str, from: usize) -> (r: Option<usize>)
    ensures
        match r {
            Some(i) => is_last_match_from(s@, pat@, from as int, i as int),
            None => !has_match_from(s@, pat@, from as int),
        },
{
    let n = s.unicode_len();
    if from > n {
        return None;
    }
    let mut i: usize = n;
    loop
        invariant
            from <= i <= n,
            n == s@.len(),
            forall|j: int| j > i ==> !matches_at(s@, pat@, j),
        decreases i + 1,
    {
        if occurs_at(s, pat, i) {
            return Some(i);
        }
        if i == from {
            return None;
        }
        i -= 1;
    }
}

/// The two strings hold the same characters.
pub fn chars_eq(a: &str, b: &str) -> (r: bool)
    ensures
        r == (a@ == b@),
{
    let n = a.unicode_len();
    let m = b.unicode_len();
    if n != m {
        return false;
    }
    let r = occurs_at(a, b, 0);
    proof {
        assert(a@.subrange(0, n as int) =~= a@);
    }
    r
}

/// First position at or after `i` whose character is not ASCII whitespace
/// (the length of `s` when all of the rest is whitespace).
pub open spec fn wsp_run_end(s: Seq<char>, i: int) -> int
    decreases s.len() - i,
{
    if 0 <= i < s.len() && is_wsp(s[i]) {
        wsp_run_end(s, i + 1)
    } else {
        i
    }
}

/// First position at or after `i` whose character is not an ASCII word
/// character.
pub open spec fn word_run_end(s: Seq<char>, i: int) -> int
    decreases s.len() - i,
{
    if 0 <= i < s.len() && is_word(s[i]) {
        word_run_end(s, i + 1)
    } else {
        i
    }
}

/// First position at or after `i` whose character is neither a digit nor a
/// dot.
pub open spec fn numdot_run_end(s: Seq<char>, i: int) -> int
    decreases s.len() - i,
{
    if 0 <= i < s.len() && (is_digit(s[i]) || s[i] == '.') {
        numdot_run_end(s, i + 1)
    } else {
        i
    }
}

/// First position at or after `i` whose character is a comma or a newline
/// (the classes that end a captured path field).
pub open spec fn field_run_end(s: Seq<char>, i: int) -> int
    decreases s.len() - i,
{
    if 0 <= i < s.len() && !(s[i] == ',' || s[i] == '\n') {
        field_run_end(s, i + 1)
    } else {
        i
    }
}

/// The exact extent of a whitespace run.
pub proof fn lemma_wsp_run_value(s: Seq<char>, i: int, e: int)
    requires
        0 <= i <= e <= s.len(),
        forall|j: int| i <= j < e ==> is_wsp(#[trigger] s[j]),
        e == s.len() || !is_wsp(s[e]),
    ensures
        wsp_run_end(s, i) == e,
    decreases e - i,
{
    if i < e {
        lemma_wsp_run_value(s, i + 1, e);
    }
}

/// The exact extent of a path-field run.
pub proof fn lemma_field_run_value(s: Seq<char>, i: int, e: int)
    requires
        0 <= i <= e <= s.len(),
        forall|j: int| i <= j < e ==> !(#[trigger] s[j] == ',' || s[j] == '\n'),
        e == s.len() || s[e] == ',' || s[e] == '\n',
    ensures
        field_run_end(s, i) == e,
    decreases e - i,
{
    if i < e {
        lemma_field_run_value(s, i + 1, e);
    }
}

/// The exact extent of a digit/dot run.
pub proof fn lemma_numdot_run_value(s: Seq<char>, i: int, e: int)
    requires
        0 <= i <= e <= s.len(),
        forall|j: int| i <= j < e ==> is_digit(#[trigger] s[j]) || s[j] == '.',
        e == s.len() || !(is_digit(s[e]) || s[e] == '.'),
    ensures
        numdot_run_end(s, i) == e,
    decreases e - i,
{
    if i < e {
        lemma_numdot_run_value(s, i + 1, e);
    }
}

/// Executable scan for `wsp_run_end`.
pub fn wsp_scan(s: &str, i: usize) -> (r: usize)
    requires
        i <= s@.len(),
    ensures
        r == wsp_run_end(s@, i as int),
        i <= r <= s@.len(),
        r == s@.len() || !is_wsp(s@[r as int]),
        forall|j: int| i <= j < r ==> is_wsp(s@[j]),
{
    let n = s.unicode_len();
    let mut j = i;
    while j < n && wsp_char(s.get_char(j))
        invariant
            i <= j <= n,
            n == s@.len(),
            wsp_run_end(s@, i as int) == wsp_run_end(s@, j as int),
            forall|k: int| i <= k < j ==> is_wsp(s@[k]),
        decreases n - j,
    {
        j += 1;
    }
    j
}

/// Executable scan for `word_run_end`.
pub fn word_scan(s: &str, i: usize) -> (r: usize)
    requires
        i <= s@.len(),
    ensures
        r == word_run_end(s@, i as int),
        i <= r <= s@.len(),
        r == s@.len() || !is_word(s@[r as int]),
        forall|j: int| i <= j < r ==> is_word(s@[j]),
{
    let n = s.unicode_len();
    let mut j = i;
    while j < n && word_char(s.get_char(j))
        invariant
            i <= j <= n,
            n == s@.len(),
            word_run_end(s@, i as int) == word_run_end(s@, j as int),
            forall|k: int| i <= k < j ==> is_word(s@[k]),
        decreases n - j,
    {
        j += 1;
    }
    j
}

/// Executable scan for `numdot_run_end`.
pub fn numdot_scan(s: &str, i: usize) -> (r: usize)
    requires
        i <= s@.len(),
    ensures
        r == numdot_run_end(s@, i as int),
        i <= r <= s@.len(),
        r == s@.len() || !(is_digit(s@[r as int]) || s@[r as int] == '.'),
        forall|j: int| i <= j < r ==> is_digit(s@[j]) || s@[j] == '.',
{
    let n = s.unicode_len();
    let mut j = i;
    while j < n && (digit_char(s.get_char(j)) || s.get_char(j) == '.')
        invariant
            i <= j <= n,
            n == s@.len(),
            numdot_run_end(s@, i as int) == numdot_run_end(s@, j as int),
            forall|k: int| i <= k < j ==> is_digit(s@[k]) || s@[k] == '.',
        decreases n - j,
    {
        j += 1;
    }
    j
}

/// Executable scan for `field_run_end`.
pub fn field_scan(s: &str, i: usize) -> (r: usize)
    requires
        i <= s@.len(),
    ensures
        r == field_run_end(s@, i as int),
        i <= r <= s@.len(),
        r == s@.len() || s@[r as int] == ',' || s@[r as int] == '\n',
        forall|j: int| i <= j < r ==> !(s@[j] == ',' || s@[j] == '\n'),
{
    let n = s.unicode_len();
    let mut j = i;
    while j < n && !(s.get_char(j) == ',' || s.get_char(j) == '\n')
        invariant
            i <= j <= n,
            n == s@.len(),
            field_run_end(s@, i as int) == field_run_end(s@, j as int),
            forall|k: int| i <= k < j ==> !(s@[k] == ',' || s@[k] == '\n'),
        decreases n - j,
    {
        j += 1;
    }
    j
}

/// Relies on `String::push` from std (vstd gives it no specification):
/// it appends the given character to the end of the string.
#[verifier::external_body]
pub fn push_char(s: &mut String, c: char)
    ensures
        final(s)@ == old(s)@.push(c),
{
    s.push(c);
}

/// The character of one decimal digit value.
pub open spec fn dec_digit(d: nat) -> char
    recommends
        d <= 9,
{
    ((48 + d) as u8) as char
}

/// The decimal numeral of `n`, most significant digit first, no leading
/// zeros (a single `0` for zero).
pub open spec fn dec_str_spec(n: nat) -> Seq<char>
    decreases n,
{
    if n < 10 {
        seq![dec_digit(n)]
    } else {
        dec_str_spec(n / 10).push(dec_digit(n % 10))
    }
}

/// Formats `n` as its decimal numeral.
pub fn u64_to_dec_string(n: u64) -> (r: String)
    ensures
        r@ == dec_str_spec(n as nat),
    decreases n,
{
    if n < 10 {
        let mut s = String::new();
        push_char(&mut s, ((48 + n as u8)) as char);
        proof {
            assert(s@ =~= seq![dec_digit(n as nat)]);
        }
        s
    } else {
        let mut s = u64_to_dec_string(n / 10);
        push_char(&mut s, (48 + (n % 10) as u8) as char);
        s
    }
}

/// `s` with leading ASCII whitespace removed.
pub open spec fn trim_front(s: Seq<char>) -> Seq<char>
    decreases s.len(),
{
    if s.len() > 0 && is_wsp(s[0]) {
        trim_front(s.drop_first())
    } else {
        s
    }
}

/// `s` with trailing ASCII whitespace removed.
pub open spec fn trim_back(s: Seq<char>) -> Seq<char>
    decreases s.len(),
{
    if s.len() > 0 && is_wsp(s[s.len() - 1]) {
        trim_back(s.drop_last())
    } else {
        s
    }
}

/// `s` with whitespace removed on both ends.
pub open spec fn trim_spec(s: Seq<char>) -> Seq<char> {
    trim_back(trim_front(s))
}

proof fn lemma_trim_front_subrange(s: Seq<char>, i: int)
    requires
        0 <= i <= s.len(),
        forall|j: int| 0 <= j < i ==> is_wsp(s[j]),
    ensures
        trim_front(s) == trim_front(s.subrange(i, s.len() as int)),
    decreases i,
{
    if i > 0 {
        assert(trim_front(s) == trim_front(s.drop_first()));
        let t = s.subrange(1, s.len() as int);
        assert(s.drop_first() =~= t);
        assert forall|j: int| 0 <= j < i - 1 implies is_wsp(t[j]) by {
            assert(t[j] == s[j + 1]);
        }
        lemma_trim_front_subrange(t, i - 1);
        assert(t.subrange(i - 1, t.len() as int) =~= s.subrange(i, s.len() as int));
    } else {
        assert(s.subrange(0, s.len() as int) =~= s);
    }
}

proof fn lemma_trim_back_subrange(s: Seq<char>, i: int)
    requires
        0 <= i <= s.len(),
        forall|j: int| i <= j < s.len() ==> is_wsp(s[j]),
    ensures
        trim_back(s) == trim_back(s.subrange(0, i)),
    decreases s.len() - i,
{
    if i < s.len() {
        assert(is_wsp(s[s.len() - 1]));
        assert(trim_back(s) == trim_back(s.drop_last()));
        let t = s.subrange(0, s.len() - 1);
        assert(s.drop_last() =~= t);
        lemma_trim_back_subrange(t, i);
        assert(t.subrange(0, i) =~= s.subrange(0, i));
    } else {
        assert(s.subrange(0, s.len() as int) =~= s);
    }
}

/// Returns the substring of `s` with surrounding ASCII whitespace removed.
pub fn trim(s: &str) -> (r: &str)
    ensures
        r@ == trim_spec(s@),
{
    let n = s.unicode_len();
    let a = wsp_scan(s, 0);
    let mut b = n;
    while b > a && wsp_char(s.get_char(b - 1))
        invariant
            a <= b <= n,
            n == s@.len(),
            forall|j: int| b <= j < n ==> is_wsp(s@[j]),
        decreases b,
    {
        b -= 1;
    }
    let cut = s.substring_char(a, b);
    proof {
        let tail = s@.subrange(a as int, n as int);
        lemma_trim_front_subrange(s@, a as int);
        // the head of `tail` is not whitespace, so trim_front leaves it alone
        assert(trim_front(s@) == tail);
        assert forall|j: int| b - a <= j < tail.len() implies is_wsp(tail[j]) by {
            assert(tail[j] == s@[a + j]);
        }
        lemma_trim_back_subrange(tail, b - a);
        assert(tail.subrange(0, b - a) =~= s@.subrange(a as int, b as int));
        if b > a {
            assert(cut@[cut@.len() - 1] == s@[b - 1]);
        }
        assert(trim_back(cut@) == cut@);
    }
    cut
}

} // verus!
