//! Path normalization for embedding file paths in a POSIX shell command line.
//!
//! A drive-letter path (`X:\...`) is rewritten to `/<lowercased drive>/<rest>`
//! with backslashes turned into forward slashes; any other path is passed
//! through unchanged.  In both cases every character that is special to the
//! shell (space, `(`, `)`, `&`) is preceded with a backslash.
use vstd::prelude::*;
use vstd::string::StrSliceExecFns;

use crate::chars::push_char;

verus! {

/// The characters that must be escaped before the shell sees them.
pub open spec fn is_escape_char(c: char) -> bool {
    c == ' ' || c == '(' || c == ')' || c == '&'
}

/// One character of escaped output: the character itself, preceded by a
/// backslash when the shell treats it specially.
pub open spec fn escape_char(c: char) -> Seq<char> {
    if is_escape_char(c) {
        seq!['\\', c]
    } else {
        seq![c]
    }
}

/// The whole string with every shell-special character escaped.
pub open spec fn escape_path(s: Seq<char>) -> Seq<char>
    decreases s.len(),
{
    if s.len() == 0 {
        Seq::empty()
    } else {
        escape_char(s[0]) + escape_path(s.drop_first())
    }
}

/// Escaping distributes over concatenation.
pub proof fn lemma_escape_path_concat(a: Seq<char>, b: Seq<char>)
    ensures
        escape_path(a + b) == escape_path(a) + escape_path(b),
    decreases a.len(),
{
    if a.len() == 0 {
        assert(a + b =~= b);
        assert(escape_path(a) + escape_path(b) =~= escape_path(b));
    } else {
        assert((a + b).drop_first() =~= a.drop_first() + b);
        lemma_escape_path_concat(a.drop_first(), b);
        assert(escape_char((a + b)[0]) + (escape_path(a.drop_first()) + escape_path(b))
            =~= (escape_char(a[0]) + escape_path(a.drop_first())) + escape_path(b));
    }
}

/// Escaping one appended character appends its escaped form.
pub proof fn lemma_escape_path_snoc(a: Seq<char>, c: char)
    ensures
        escape_path(a.push(c)) == escape_path(a) + escape_char(c),
{
    lemma_escape_path_concat(a, seq![c]);
    assert(a.push(c) =~= a + seq![c]);
    assert(seq![c].drop_first() =~= Seq::<char>::empty());
    assert(escape_path(seq![c]) == escape_char(c) + escape_path(Seq::<char>::empty()));
    assert(escape_char(c) + Seq::<char>::empty() =~= escape_char(c));
}

/// A backslash as seen by the drive-letter branch: turned into a slash.
pub open spec fn slash_char(c: char) -> char {
    if c == '\\' {
        '/'
    } else {
        c
    }
}

/// Every backslash replaced by a forward slash.
pub open spec fn slashify(s: Seq<char>) -> Seq<char> {
    s.map_values(|c: char| slash_char(c))
}

/// ASCII uppercase letters lowered, all else unchanged.
pub open spec fn lower_char(c: char) -> char {
    if 65 <= c as u32 && c as u32 <= 90 {
        (((c as u32) + 32) as u8) as char
    } else {
        c
    }
}

/// Executable ASCII lowercasing of one character.
pub fn to_lower_char(c: char) -> (r: char)
    ensures
        r == lower_char(c),
{
    let u = c as u32;
    if 65 <= u && u <= 90 {
        ((u + 32) as u8) as char
    } else {
        c
    }
}

/// Executable test for `is_ascii_letter`.
pub fn ascii_letter_char(c: char) -> (r: bool)
    ensures
        r == is_ascii_letter(c),
{
    let u = c as u32;
    (65 <= u && u <= 90) || (97 <= u && u <= 122)
}

/// The path is recognized as a drive-letter path: a single ASCII letter,
/// then `:\`, at the very start.
pub open spec fn is_drive_path(s: Seq<char>) -> bool {
    s.len() >= 3 && is_ascii_letter(s[0]) && s[1] == ':' && s[2] == '\\'
}

/// The normalized form of a path, as embedded in the shell command line.
pub open spec fn ensure_unix_spec(s: Seq<char>) -> Seq<char> {
    if is_drive_path(s) {
        seq!['/', lower_char(s[0]), '/'] + escape_path(slashify(s.subrange(3, s.len() as int)))
    } else {
        escape_path(s)
    }
}

/// An ASCII letter, the only shape a drive prefix takes.
pub open spec fn is_ascii_letter(c: char) -> bool {
    (65 <= c as u32 && c as u32 <= 90) || (97 <= c as u32 && c as u32 <= 122)
}

/// Law: a drive-letter path `L:\rest` normalizes to `/`, the lowercased
/// drive letter, `/`, and the escaped slash-converted rest — so its output
/// always starts with `/<lowercase drive>/`.
pub proof fn lemma_drive_path_normalization(drive: char, rest: Seq<char>)
    requires
        is_ascii_letter(drive),
    ensures
        ensure_unix_spec(seq![drive, ':', '\\'] + rest) == seq!['/', lower_char(drive), '/']
            + escape_path(slashify(rest)),
{
    let s = seq![drive, ':', '\\'] + rest;
    assert(is_drive_path(s));
    assert(s.subrange(3, s.len() as int) =~= rest);
}

/// Law: in every escaped output, each shell-special character is immediately
/// preceded by a backslash (on a path that itself carries backslashes, an
/// original backslash may stand before the inserted one; see
/// `lemma_escape_marks_each_special` for the exactly-one form).
pub proof fn lemma_escape_precedes_each_special(s: Seq<char>)
    ensures
        forall|i: int|
            0 <= i < escape_path(s).len() && is_escape_char(#[trigger] escape_path(s)[i]) ==> i >= 1
                && escape_path(s)[i - 1] == '\\',
    decreases s.len(),
{
    if s.len() > 0 {
        let c = s[0];
        let head = escape_char(c);
        let tail = escape_path(s.drop_first());
        let t = escape_path(s);
        assert(t == head + tail);
        lemma_escape_precedes_each_special(s.drop_first());
        let h = head.len() as int;
        assert forall|i: int|
            0 <= i < t.len() && is_escape_char(#[trigger] t[i]) implies i >= 1 && t[i - 1]
            == '\\' by {
            if i < h {
                if is_escape_char(c) {
                    assert(t[0] == '\\');
                    assert(!is_escape_char('\\'));
                    assert(i == 1);
                } else {
                    assert(i == 0 && t[0] == c);
                    assert(false);
                }
            } else {
                assert(t[i] == tail[i - h]);
                assert(i - h >= 1);
                assert(t[i - 1] == tail[i - h - 1]);
            }
        }
    }
}

/// Law: on a path free of backslashes, every shell-special character of the
/// escaped output is preceded by exactly one backslash.
pub proof fn lemma_escape_marks_each_special(s: Seq<char>)
    requires
        forall|i: int| 0 <= i < s.len() ==> s[i] != '\\',
    ensures
        forall|i: int|
            0 <= i < escape_path(s).len() && is_escape_char(#[trigger] escape_path(s)[i]) ==> i >= 1
                && escape_path(s)[i - 1] == '\\' && (i == 1 || escape_path(s)[i - 2] != '\\'),
    decreases s.len(),
{
    if s.len() > 0 {
        let c = s[0];
        let head = escape_char(c);
        let tail = escape_path(s.drop_first());
        let t = escape_path(s);
        assert(t == head + tail);
        assert(forall|i: int| 0 <= i < s.drop_first().len() ==> s.drop_first()[i] != '\\');
        lemma_escape_marks_each_special(s.drop_first());
        assert(c != '\\');
        let h = head.len() as int;
        assert forall|i: int|
            0 <= i < t.len() && is_escape_char(#[trigger] t[i]) implies i >= 1 && t[i - 1] == '\\'
            && (i == 1 || t[i - 2] != '\\') by {
            if i < h {
                // inside the escaped form of the first character
                if is_escape_char(c) {
                    assert(t[0] == '\\');
                    assert(!is_escape_char('\\'));
                    assert(i == 1);
                } else {
                    assert(i == 0 && t[0] == c);
                    assert(false);
                }
            } else {
                // inside the escaped tail, shifted by the head
                assert(t[i] == tail[i - h]);
                assert(i - h >= 1);
                assert(t[i - 1] == tail[i - h - 1]);
                if i - h == 1 {
                    // the character before the tail's leading backslash is
                    // the last character of the head, never itself a backslash
                    if is_escape_char(c) {
                        assert(t[i - 2] == c);
                    } else {
                        assert(t[i - 2] == c);
                    }
                } else {
                    assert(t[i - 2] == tail[i - h - 2]);
                }
            }
        }
    }
}

/// Appends one character in escaped form.
fn escape_push(out: &mut String, c: char)
    ensures
        final(out)@ == old(out)@ + escape_char(c),
{
    if c == ' ' || c == '(' || c == ')' || c == '&' {
        push_char(out, '\\');
    }
    push_char(out, c);
    proof {
        assert(out@ =~= old(out)@ + escape_char(c));
    }
}

/// Escapes every shell-special character of the path; no other change.
pub fn normalize_unix_path(path: &str) -> (r: String)
    ensures
        r@ == escape_path(path@),
{
    let n = path.unicode_len();
    let mut out = String::new();
    let mut j: usize = 0;
    while j < n
        invariant
            j <= n,
            n == path@.len(),
            out@ == escape_path(path@.subrange(0, j as int)),
        decreases n - j,
    {
        escape_push(&mut out, path.get_char(j));
        proof {
            lemma_escape_path_snoc(path@.subrange(0, j as int), path@[j as int]);
            assert(path@.subrange(0, j + 1) =~= path@.subrange(0, j as int).push(path@[j as int]));
        }
        j += 1;
    }
    proof {
        assert(path@.subrange(0, n as int) =~= path@);
    }
    out
}

/// Normalizes a path for the shell: a drive-letter path becomes
/// `/<lowercased drive>/<slash-converted rest>`, anything else passes through;
/// shell-special characters are escaped in either case.
pub fn ensure_unix_path(path: &str) -> (r: String)
    ensures
        r@ == ensure_unix_spec(path@),
{
    let n = path.unicode_len();
    let drive = n >= 3 && ascii_letter_char(path.get_char(0)) && path.get_char(1) == ':'
        && path.get_char(2) == '\\';
    if drive {
        let mut out = String::new();
        push_char(&mut out, '/');
        push_char(&mut out, to_lower_char(path.get_char(0)));
        push_char(&mut out, '/');
        let mut k: usize = 3;
        proof {
            assert(slashify(path@.subrange(3, 3)) =~= Seq::<char>::empty());
            assert(out@ =~= seq!['/', lower_char(path@[0]), '/'] + escape_path(
                slashify(path@.subrange(3, 3)),
            ));
        }
        while k < n
            invariant
                3 <= k <= n,
                n == path@.len(),
                out@ == seq!['/', lower_char(path@[0]), '/'] + escape_path(
                    slashify(path@.subrange(3, k as int)),
                ),
            decreases n - k,
        {
            let c = path.get_char(k);
            let c2 = if c == '\\' {
                '/'
            } else {
                c
            };
            escape_push(&mut out, c2);
            proof {
                let a = slashify(path@.subrange(3, k as int));
                lemma_escape_path_snoc(a, slash_char(path@[k as int]));
                assert(slashify(path@.subrange(3, k + 1)) =~= a.push(slash_char(path@[k as int])));
                assert(out@ =~= seq!['/', lower_char(path@[0]), '/'] + escape_path(
                    slashify(path@.subrange(3, k + 1)),
                ));
            }
            k += 1;
        }
        out
    } else {
        normalize_unix_path(path)
    }
}

} // verus!
