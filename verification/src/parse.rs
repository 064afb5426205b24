//! Stateless classification of one log line of the conversion script into at
//! most one semantic event: a duration declaration, an elapsed-time position,
//! a per-file conversion status, or a per-file size summary.
use vstd::prelude::*;
use vstd::string::{StrSliceExecFns, StringExecFns};

use crate::chars::{
    field_run_end, field_scan, find_first, find_last, has_match_from, is_first_match_from,
    is_last_match_from, lemma_first_match_exists, lemma_first_match_unique, matches_at,
    numdot_run_end, numdot_scan, occurs_at, trim, trim_spec, wsp_run_end, wsp_scan,
};
use crate::events::{
    ParseEvent, ParseEventModel, ParseFileEventPayload, ParseFilePayloadModel, Summary,
    SummaryModel,
};
use crate::time::{time_ms_spec, time_str_to_milliseconds};

verus! {

/// The marker that opens a duration declaration.
pub open spec fn dur_pre() -> Seq<char> {
    seq!['D', 'u', 'r', 'a', 't', 'i', 'o', 'n', ':']
}

/// The delimiter that closes a duration capture.
pub open spec fn dur_suf() -> Seq<char> {
    seq![',', ' ', 's', 't', 'a', 'r', 't']
}

/// The marker that opens an elapsed-time capture.
pub open spec fn elapsed_pre() -> Seq<char> {
    seq!['t', 'i', 'm', 'e', '=']
}

/// The delimiter that closes an elapsed-time capture.
pub open spec fn elapsed_suf() -> Seq<char> {
    seq![' ', 'b', 'i', 't', 'r', 'a', 't', 'e', '=']
}

/// The text between the first occurrence of `pre` and the last following
/// occurrence of `suf`, or `None` when either marker is missing.
pub open spec fn capture_between(s: Seq<char>, pre: Seq<char>, suf: Seq<char>) -> Option<
    Seq<char>,
> {
    if has_match_from(s, pre, 0) {
        let i = choose|i: int| is_first_match_from(s, pre, 0, i);
        if has_match_from(s, suf, i + pre.len()) {
            let j = choose|j: int| #[trigger] is_last_match_from(s, suf, i + pre.len(), j);
            Some(s.subrange(i + pre.len(), j))
        } else {
            None
        }
    } else {
        None
    }
}

/// The duration a line declares: the capture between `Duration:` and
/// `, start`, trimmed and read as a clock time, in milliseconds.
pub open spec fn duration_ms_of_line(s: Seq<char>) -> Option<u64> {
    match capture_between(s, dur_pre(), dur_suf()) {
        Some(cap) => time_ms_spec(trim_spec(cap)),
        None => None,
    }
}

/// The elapsed position a line reports: the capture between `time=` and
/// ` bitrate=`, trimmed and read as a clock time, in milliseconds.
pub open spec fn elapsed_ms_of_line(s: Seq<char>) -> Option<u64> {
    match capture_between(s, elapsed_pre(), elapsed_suf()) {
        Some(cap) => time_ms_spec(trim_spec(cap)),
        None => None,
    }
}

/// Extracts the delimited capture of a line, as `capture_between` describes.
fn capture_line<'a>(line: &'a str, pre: &str, suf: &str) -> (r: Option<&'a str>)
    ensures
        match r {
            Some(cap) => capture_between(line@, pre@, suf@) == Some(cap@),
            None => capture_between(line@, pre@, suf@) is None,
        },
{
    let n = line.unicode_len();
    let pre_len = pre.unicode_len();
    match find_first(line, pre, 0) {
        None => None,
        Some(i) => {
            proof {
                lemma_first_match_exists(line@, pre@, i as int);
                lemma_first_match_unique(
                    line@,
                    pre@,
                    0,
                    i as int,
                    choose|k: int| is_first_match_from(line@, pre@, 0, k),
                );
            }
            match find_last(line, suf, i + pre_len) {
                None => None,
                Some(j) => {
                    let cap = line.substring_char(i + pre_len, j);
                    proof {
                        let j2 = choose|k: int| #[trigger] is_last_match_from(
                            line@,
                            suf@,
                            i + pre@.len(),
                            k,
                        );
                        assert(is_last_match_from(line@, suf@, i + pre@.len(), j2));
                        assert(j2 == j as int);
                    }
                    Some(cap)
                },
            }
        },
    }
}

/// Classifies a duration-declaration line: `Duration:<capture>, start`, the
/// capture trimmed and parsed as `HH:MM:SS[.fraction]`.  Any line without the
/// markers, or whose capture is not a well-formed clock time, yields `None`.
pub fn try_duration_line(line: &str) -> (r: Option<u64>)
    ensures
        r == duration_ms_of_line(line@),
{
    proof {
        reveal_strlit("Duration:");
        reveal_strlit(", start");
        assert("Duration:"@ =~= dur_pre());
        assert(", start"@ =~= dur_suf());
    }
    match capture_line(line, "Duration:", ", start") {
        Some(cap) => time_str_to_milliseconds(trim(cap)),
        None => None,
    }
}

/// Classifies an elapsed-position line: `time=<capture> bitrate=`, the
/// capture trimmed and parsed as `HH:MM:SS[.fraction]`.  Any line without the
/// markers, or whose capture is not a well-formed clock time, yields `None`.
pub fn try_percent_line(line: &str) -> (r: Option<u64>)
    ensures
        r == elapsed_ms_of_line(line@),
{
    proof {
        reveal_strlit("time=");
        reveal_strlit(" bitrate=");
        assert("time="@ =~= elapsed_pre());
        assert(" bitrate="@ =~= elapsed_suf());
    }
    match capture_line(line, "time=", " bitrate=") {
        Some(cap) => time_str_to_milliseconds(trim(cap)),
        None => None,
    }
}

/// A source/target pair borrowed from the classified line.
pub type FileTuple<'a> = (&'a str, &'a str);

/// Transient classification of one log line into started, succeeded or
/// failed, for a source/target file pair.
#[derive(Debug, PartialEq)]
pub enum ConvertStatusLine<'a> {
    Started(FileTuple<'a>),
    Succeed(FileTuple<'a>),
    Failed(FileTuple<'a>),
}

/// The mathematical content of a `ConvertStatusLine`.
pub enum ConvertStatusModel {
    Started(Seq<char>, Seq<char>),
    Succeed(Seq<char>, Seq<char>),
    Failed(Seq<char>, Seq<char>),
}

impl View for ConvertStatusLine<'_> {
    type V = ConvertStatusModel;

    open spec fn view(&self) -> ConvertStatusModel {
        match self {
            ConvertStatusLine::Started(f) => ConvertStatusModel::Started(f.0@, f.1@),
            ConvertStatusLine::Succeed(f) => ConvertStatusModel::Succeed(f.0@, f.1@),
            ConvertStatusLine::Failed(f) => ConvertStatusModel::Failed(f.0@, f.1@),
        }
    }
}

/// The word that opens a file-status line.
pub open spec fn convert_pre() -> Seq<char> {
    seq!['C', 'o', 'n', 'v', 'e', 'r', 't']
}

/// The separator between the source and the target path.
pub open spec fn arrow_pat() -> Seq<char> {
    seq![' ', '=', '=', '=', '>', ' ']
}

/// The input/output pair of a `<space><input> ===> <output>` tail standing
/// at `rest_start`: a space, then the split at the first arrow that leaves
/// the input nonempty, the output running to the end of the line.  `None`
/// when no such tail stands there.
pub open spec fn tail_split(s: Seq<char>, rest_start: int) -> Option<(Seq<char>, Seq<char>)> {
    if 0 <= rest_start < s.len() && s[rest_start] == ' ' {
        let body = s.subrange(rest_start + 1, s.len() as int);
        if !has_match_from(body, arrow_pat(), 1) {
            None
        } else {
            let k = choose|k: int| is_first_match_from(body, arrow_pat(), 1, k);
            if k + 6 < body.len() {
                Some((body.subrange(0, k), body.subrange(k + 6, body.len() as int)))
            } else {
                None
            }
        }
    } else {
        None
    }
}

/// The raw pieces of a file-status line `Convert<status>[ <result>:]
/// <input> ===> <output>`: the status word right after `Convert`, the
/// optional result word before a colon, and the two paths around the arrow.
/// The result field is truly optional: where a result-shaped token is read
/// but no `<space><input> ===> <output>` follows its colon, the token folds
/// back into the input path and the line is read without a result — so a
/// colon-bearing path such as a drive-letter path stays part of the path.
/// `None` when the line has neither shape.
pub open spec fn convert_parts(s: Seq<char>) -> Option<
    (Seq<char>, Option<Seq<char>>, Seq<char>, Seq<char>),
> {
    if !has_match_from(s, convert_pre(), 0) {
        None
    } else {
        let i = choose|i: int| is_first_match_from(s, convert_pre(), 0, i);
        let w_end = crate::chars::word_run_end(s, i + 7);
        if w_end == i + 7 {
            None
        } else {
            let status = s.subrange(i + 7, w_end);
            let r_end = crate::chars::word_run_end(s, w_end + 1);
            let has_result = w_end < s.len() && s[w_end] == ' ' && r_end > w_end + 1 && r_end
                < s.len() && s[r_end] == ':';
            if has_result && tail_split(s, r_end + 1) is Some {
                match tail_split(s, r_end + 1) {
                    Some(io) => Some((status, Some(s.subrange(w_end + 1, r_end)), io.0, io.1)),
                    None => None,
                }
            } else {
                match tail_split(s, w_end) {
                    Some(io) => Some((status, None, io.0, io.1)),
                    None => None,
                }
            }
        }
    }
}

/// The classification of a file-status line: status `ing` is a start; status
/// `ed` is a success or a failure according to the result word; any other
/// combination classifies as nothing.
pub open spec fn converting_line_spec(s: Seq<char>) -> Option<ConvertStatusModel> {
    match convert_parts(s) {
        None => None,
        Some(parts) => {
            let status = parts.0;
            let result = parts.1;
            let input = parts.2;
            let output = parts.3;
            if status == seq!['i', 'n', 'g'] {
                Some(ConvertStatusModel::Started(input, output))
            } else if status == seq!['e', 'd'] && result == Some(
                seq!['s', 'u', 'c', 'c', 'e', 's', 's'],
            ) {
                Some(ConvertStatusModel::Succeed(input, output))
            } else if status == seq!['e', 'd'] && result == Some(
                seq!['f', 'a', 'i', 'l', 'e', 'd'],
            ) {
                Some(ConvertStatusModel::Failed(input, output))
            } else {
                None
            }
        },
    }
}

/// Splits the `<space><input> ===> <output>` tail standing at `rest_start`.
fn split_tail<'a>(line: &'a str, rest_start: usize) -> (r: Option<(&'a str, &'a str)>)
    ensures
        match r {
            Some(io) => tail_split(line@, rest_start as int) == Some((io.0@, io.1@)),
            None => tail_split(line@, rest_start as int) is None,
        },
{
    let n = line.unicode_len();
    if !(rest_start < n && line.get_char(rest_start) == ' ') {
        return None;
    }
    let body = line.substring_char(rest_start + 1, n);
    proof {
        reveal_strlit(" ===> ");
        assert(" ===> "@ =~= arrow_pat());
    }
    let k = match find_first(body, " ===> ", 1) {
        None => {
            return None;
        },
        Some(k) => k,
    };
    proof {
        assert(exists|m: int| is_first_match_from(body@, arrow_pat(), 1, m)) by {
            assert(is_first_match_from(body@, arrow_pat(), 1, k as int));
        }
        lemma_first_match_unique(
            body@,
            arrow_pat(),
            1,
            k as int,
            choose|m: int| is_first_match_from(body@, arrow_pat(), 1, m),
        );
    }
    let body_len = body.unicode_len();
    if k + 6 >= body_len {
        return None;
    }
    Some((body.substring_char(0, k), body.substring_char(k + 6, body_len)))
}

/// Classifies a file-status line `Convert<status>[ <result>:] <input> ===>
/// <output>`; `Converting` starts a file, `Converted` with `success:` or
/// `failed:` finishes one.  A colon-bearing token that no arrow tail follows
/// is part of the input path, not a result.  Any other line yields `None`.
pub fn try_converting_line<'a>(line: &'a str) -> (r: Option<ConvertStatusLine<'a>>)
    ensures
        match r {
            Some(c) => converting_line_spec(line@) == Some(c@),
            None => converting_line_spec(line@) is None,
        },
{
    let n = line.unicode_len();
    proof {
        reveal_strlit("Convert");
        assert("Convert"@ =~= convert_pre());
    }
    let i = match find_first(line, "Convert", 0) {
        None => {
            return None;
        },
        Some(i) => i,
    };
    proof {
        lemma_first_match_exists(line@, convert_pre(), i as int);
        lemma_first_match_unique(
            line@,
            convert_pre(),
            0,
            i as int,
            choose|k: int| is_first_match_from(line@, convert_pre(), 0, k),
        );
    }
    let w_end = crate::chars::word_scan(line, i + 7);
    if w_end == i + 7 {
        return None;
    }
    let mut has_result = false;
    let mut r_lo: usize = 0;
    let mut r_hi: usize = 0;
    if w_end < n && line.get_char(w_end) == ' ' {
        let r_end = crate::chars::word_scan(line, w_end + 1);
        if r_end > w_end + 1 && r_end < n && line.get_char(r_end) == ':' {
            has_result = true;
            r_lo = w_end + 1;
            r_hi = r_end;
        }
    }
    proof {
        let ghost_r_end = crate::chars::word_run_end(line@, w_end + 1);
        assert(has_result == (w_end < line@.len() && line@[w_end as int] == ' ' && ghost_r_end
            > w_end + 1 && ghost_r_end < line@.len() && line@[ghost_r_end] == ':'));
    }
    let mut result_taken = false;
    let mut io_opt: Option<(&str, &str)> = None;
    if has_result {
        match split_tail(line, r_hi + 1) {
            Some(io) => {
                io_opt = Some(io);
                result_taken = true;
            },
            None => {
                io_opt = split_tail(line, w_end);
            },
        }
    } else {
        io_opt = split_tail(line, w_end);
    }
    let (input, output) = match io_opt {
        None => {
            return None;
        },
        Some(io) => io,
    };
    let status = line.substring_char(i + 7, w_end);
    proof {
        reveal_strlit("ing");
        reveal_strlit("ed");
        reveal_strlit("success");
        reveal_strlit("failed");
        assert("ing"@ =~= seq!['i', 'n', 'g']);
        assert("ed"@ =~= seq!['e', 'd']);
        assert("success"@ =~= seq!['s', 'u', 'c', 'c', 'e', 's', 's']);
        assert("failed"@ =~= seq!['f', 'a', 'i', 'l', 'e', 'd']);
    }
    if crate::chars::chars_eq(status, "ing") {
        return Some(ConvertStatusLine::Started((input, output)));
    }
    if crate::chars::chars_eq(status, "ed") && result_taken {
        let result = line.substring_char(r_lo, r_hi);
        if crate::chars::chars_eq(result, "success") {
            return Some(ConvertStatusLine::Succeed((input, output)));
        }
        if crate::chars::chars_eq(result, "failed") {
            return Some(ConvertStatusLine::Failed((input, output)));
        }
        return None;
    }
    None
}

/// The event a classification maps to: `Started` opens a file, `Succeed` and
/// `Failed` close one, each carrying the job id and the file pair.
pub open spec fn to_parse_event_spec(v: ConvertStatusModel, id: Seq<char>) -> ParseEventModel {
    match v {
        ConvertStatusModel::Started(s, t) => ParseEventModel::StartParseFile(
            ParseFilePayloadModel { id: id, source: s, target: t },
        ),
        ConvertStatusModel::Succeed(s, t) => ParseEventModel::ParseFileSuccess(
            ParseFilePayloadModel { id: id, source: s, target: t },
        ),
        ConvertStatusModel::Failed(s, t) => ParseEventModel::ParseFileFailed(
            ParseFilePayloadModel { id: id, source: s, target: t },
        ),
    }
}

impl ConvertStatusLine<'_> {
    /// Maps the classification of a line to the per-file event of job `id`.
    pub fn to_parse_event<'a>(value: &'a Self, id: &'a str) -> (r: ParseEvent)
        ensures
            r@ == to_parse_event_spec(value@, id@),
    {
        match value {
            ConvertStatusLine::Started(file) => ParseEvent::StartParseFile(
                ParseFileEventPayload {
                    id: String::from_str(id),
                    source: String::from_str(file.0),
                    target: String::from_str(file.1),
                },
            ),
            ConvertStatusLine::Succeed(file) => ParseEvent::ParseFileSuccess(
                ParseFileEventPayload {
                    id: String::from_str(id),
                    source: String::from_str(file.0),
                    target: String::from_str(file.1),
                },
            ),
            ConvertStatusLine::Failed(file) => ParseEvent::ParseFileFailed(
                ParseFileEventPayload {
                    id: String::from_str(id),
                    source: String::from_str(file.0),
                    target: String::from_str(file.1),
                },
            ),
        }
    }
}


/// The marker that opens a summary line.
pub open spec fn input_pat() -> Seq<char> {
    seq!['I', 'n', 'p', 'u', 't', ':']
}

/// The size-field marker.
pub open spec fn size_pat() -> Seq<char> {
    seq!['S', 'i', 'z', 'e', ':']
}

/// The megabyte unit that closes each size capture.
pub open spec fn mb_pat() -> Seq<char> {
    seq!['M', 'B']
}

/// The bare arrow between the input and output halves.
pub open spec fn eqarrow_pat() -> Seq<char> {
    seq!['=', '=', '=', '>']
}

/// The output-half marker.
pub open spec fn output_pat() -> Seq<char> {
    seq!['O', 'u', 't', 'p', 'u', 't', ':']
}

/// The first word of the closing `smaller than origin` phrase.
pub open spec fn smaller_pat() -> Seq<char> {
    seq!['s', 'm', 'a', 'l', 'l', 'e', 'r']
}

/// The second word of the closing phrase.
pub open spec fn than_pat() -> Seq<char> {
    seq!['t', 'h', 'a', 'n']
}

/// The third word of the closing phrase.
pub open spec fn origin_pat() -> Seq<char> {
    seq!['o', 'r', 'i', 'g', 'i', 'n']
}

/// The five verbatim captures of a well-formed summary line
/// `Input: <source>, Size: <size> MB ===> Output: <target>, Size: <size> MB,
/// <delta> MB smaller than origin`, scanned left to right from the first
/// `Input:`: path fields run to the next comma, size fields are a digit/dot
/// run with the `MB` unit included in the capture, and any amount of blank
/// space may stand between the pieces.  `None` when the line does not have
/// that shape.
pub open spec fn summary_line_spec(s: Seq<char>) -> Option<SummaryModel> {
    if !has_match_from(s, input_pat(), 0) {
        None
    } else {
        let i0 = choose|i: int| is_first_match_from(s, input_pat(), 0, i);
        let p1 = wsp_run_end(s, i0 + 6);
        let se = field_run_end(s, p1);
        if se == p1 || !(se < s.len() && s[se] == ',') {
            None
        } else {
            let source = s.subrange(p1, se);
            let p2 = wsp_run_end(s, se + 1);
            if !matches_at(s, size_pat(), p2) {
                None
            } else {
                let p3 = wsp_run_end(s, p2 + 5);
                let ne = numdot_run_end(s, p3);
                if ne == p3 {
                    None
                } else {
                    let p4 = wsp_run_end(s, ne);
                    if !matches_at(s, mb_pat(), p4) {
                        None
                    } else {
                        let source_size = s.subrange(p3, p4 + 2);
                        let p5 = wsp_run_end(s, p4 + 2);
                        if !matches_at(s, eqarrow_pat(), p5) {
                            None
                        } else {
                            let p6 = wsp_run_end(s, p5 + 4);
                            if !matches_at(s, output_pat(), p6) {
                                None
                            } else {
                                summary_line_tail(s, source, source_size, p6)
                            }
                        }
                    }
                }
            }
        }
    }
}

/// The output half of a summary line, from just past `Output:`.
pub open spec fn summary_line_tail(
    s: Seq<char>,
    source: Seq<char>,
    source_size: Seq<char>,
    p6: int,
) -> Option<SummaryModel> {
    let p7 = wsp_run_end(s, p6 + 7);
    let te = field_run_end(s, p7);
    if te == p7 || !(te < s.len() && s[te] == ',') {
        None
    } else {
        let target = s.subrange(p7, te);
        let p8 = wsp_run_end(s, te + 1);
        if !matches_at(s, size_pat(), p8) {
            None
        } else {
            let p9 = wsp_run_end(s, p8 + 5);
            let me = numdot_run_end(s, p9);
            if me == p9 {
                None
            } else {
                let p10 = wsp_run_end(s, me);
                if !matches_at(s, mb_pat(), p10) {
                    None
                } else {
                    let target_size = s.subrange(p9, p10 + 2);
                    if !(p10 + 2 < s.len() && s[p10 + 2] == ',') {
                        None
                    } else {
                        let p11 = wsp_run_end(s, p10 + 3);
                        let re = numdot_run_end(s, p11);
                        if re == p11 {
                            None
                        } else {
                            let p12 = wsp_run_end(s, re);
                            if !matches_at(s, mb_pat(), p12) {
                                None
                            } else {
                                let reduce_size = s.subrange(p11, p12 + 2);
                                let p13 = wsp_run_end(s, p12 + 2);
                                if !matches_at(s, smaller_pat(), p13) {
                                    None
                                } else {
                                    let p14 = wsp_run_end(s, p13 + 7);
                                    if !matches_at(s, than_pat(), p14) {
                                        None
                                    } else {
                                        let p15 = wsp_run_end(s, p14 + 4);
                                        if !matches_at(s, origin_pat(), p15) {
                                            None
                                        } else {
                                            Some(
                                                SummaryModel {
                                                    source,
                                                    source_size,
                                                    target,
                                                    target_size,
                                                    reduce_size,
                                                },
                                            )
                                        }
                                    }
                                }
                            }
                        }
                    }
                }
            }
        }
    }
}

/// A path field that can stand in a summary line: nonempty, free of commas
/// and newlines, and not opening with blank space.
pub open spec fn wf_summary_field(f: Seq<char>) -> bool {
    &&& f.len() > 0
    &&& !crate::chars::is_wsp(f[0])
    &&& forall|j: int| 0 <= j < f.len() ==> !(#[trigger] f[j] == ',' || f[j] == '\n')
}

/// A size figure that can stand in a summary line: a nonempty run of digits
/// and dots.
pub open spec fn wf_summary_number(d: Seq<char>) -> bool {
    &&& d.len() > 0
    &&& forall|j: int| 0 <= j < d.len() ==> crate::chars::is_digit(#[trigger] d[j]) || d[j] == '.'
}

/// A well-formed summary line assembled from its five pieces.
#[verifier::opaque]
pub open spec fn summary_line_of(
    source: Seq<char>,
    d1: Seq<char>,
    target: Seq<char>,
    d2: Seq<char>,
    d3: Seq<char>,
) -> Seq<char> {
    input_pat() + seq![' '] + source + seq![',', ' '] + size_pat() + seq![' '] + d1 + seq![' ']
        + mb_pat() + seq![' '] + eqarrow_pat() + seq![' '] + output_pat() + seq![' '] + target
        + seq![',', ' '] + size_pat() + seq![' '] + d2 + seq![' '] + mb_pat() + seq![',', ' '] + d3
        + seq![' '] + mb_pat() + seq![' '] + smaller_pat() + seq![' '] + than_pat() + seq![' ']
        + origin_pat()
}

/// The offsets and captures of the first half of an assembled summary
/// line, through the `Output:` marker.
#[verifier::rlimit(90)]
#[verifier::spinoff_prover]
proof fn lemma_summary_line_first_half(
    source: Seq<char>,
    d1: Seq<char>,
    target: Seq<char>,
    d2: Seq<char>,
    d3: Seq<char>,
)
    requires
        wf_summary_field(source),
        wf_summary_field(target),
        wf_summary_number(d1),
        wf_summary_number(d2),
        wf_summary_number(d3),
    ensures
        ({
            let s = summary_line_of(source, d1, target, d2, d3);
            let l1 = source.len() as int;
            let n1 = d1.len() as int;
            &&& s.len() == 68 + l1 + n1 + target.len() + d2.len() + d3.len()
            &&& matches_at(s, input_pat(), 0)
            &&& wsp_run_end(s, 6) == 7
            &&& field_run_end(s, 7) == 7 + l1
            &&& 7 + l1 < s.len() && s[7 + l1] == ','
            &&& s.subrange(7, 7 + l1) == source
            &&& wsp_run_end(s, 8 + l1) == 9 + l1
            &&& matches_at(s, size_pat(), 9 + l1)
            &&& wsp_run_end(s, 14 + l1) == 15 + l1
            &&& numdot_run_end(s, 15 + l1) == 15 + l1 + n1
            &&& wsp_run_end(s, 15 + l1 + n1) == 16 + l1 + n1
            &&& matches_at(s, mb_pat(), 16 + l1 + n1)
            &&& s.subrange(15 + l1, 18 + l1 + n1) == d1 + seq![' '] + mb_pat()
            &&& wsp_run_end(s, 18 + l1 + n1) == 19 + l1 + n1
            &&& matches_at(s, eqarrow_pat(), 19 + l1 + n1)
            &&& wsp_run_end(s, 23 + l1 + n1) == 24 + l1 + n1
            &&& matches_at(s, output_pat(), 24 + l1 + n1)
        }),
{
    reveal(summary_line_of);
    let s = summary_line_of(source, d1, target, d2, d3);
    let l1 = source.len() as int;
    let n1 = d1.len() as int;
    let o2: int = 7;
    let o4 = 9 + l1;
    let o6 = 15 + l1;
    let o8 = 16 + l1 + n1;
    let o10 = 19 + l1 + n1;
    let o12 = 24 + l1 + n1;
    assert(s.subrange(0, 6) =~= input_pat());
    assert(s[6] == ' ' && s[7] == source[0]);
    crate::chars::lemma_wsp_run_value(s, 6, 7);
    assert forall|j: int| o2 <= j < o2 + l1 implies !(#[trigger] s[j] == ',' || s[j] == '\n') by {
        assert(s[j] == source[j - o2]);
    }
    assert(s[o2 + l1] == ',');
    crate::chars::lemma_field_run_value(s, o2, o2 + l1);
    assert(s.subrange(o2, o2 + l1) =~= source);
    assert(s[o2 + l1 + 1] == ' ' && s[o4] == 'S');
    crate::chars::lemma_wsp_run_value(s, o2 + l1 + 1, o4);
    assert(s.subrange(o4, o4 + 5) =~= size_pat());
    assert(s[o4 + 5] == ' ' && s[o6] == d1[0]);
    crate::chars::lemma_wsp_run_value(s, o4 + 5, o6);
    assert forall|j: int|
        o6 <= j < o6 + n1 implies crate::chars::is_digit(#[trigger] s[j]) || s[j] == '.' by {
        assert(s[j] == d1[j - o6]);
    }
    assert(s[o6 + n1] == ' ');
    crate::chars::lemma_numdot_run_value(s, o6, o6 + n1);
    assert(s[o8] == 'M');
    crate::chars::lemma_wsp_run_value(s, o6 + n1, o8);
    assert(s.subrange(o8, o8 + 2) =~= mb_pat());
    assert(s.subrange(o6, o8 + 2) =~= d1 + seq![' '] + mb_pat());
    assert(s[o8 + 2] == ' ' && s[o10] == '=');
    crate::chars::lemma_wsp_run_value(s, o8 + 2, o10);
    assert(s.subrange(o10, o10 + 4) =~= eqarrow_pat());
    assert(s[o10 + 4] == ' ' && s[o12] == 'O');
    crate::chars::lemma_wsp_run_value(s, o10 + 4, o12);
    assert(s.subrange(o12, o12 + 7) =~= output_pat());
}

/// The offsets and captures of the second half of an assembled summary
/// line, from just past the `Output:` marker.
#[verifier::rlimit(90)]
#[verifier::spinoff_prover]
proof fn lemma_summary_line_second_half(
    source: Seq<char>,
    d1: Seq<char>,
    target: Seq<char>,
    d2: Seq<char>,
    d3: Seq<char>,
)
    requires
        wf_summary_field(source),
        wf_summary_field(target),
        wf_summary_number(d1),
        wf_summary_number(d2),
        wf_summary_number(d3),
    ensures
        ({
            let s = summary_line_of(source, d1, target, d2, d3);
            let b = source.len() + d1.len() as int;
            let l2 = target.len() as int;
            let n2 = d2.len() as int;
            let n3 = d3.len() as int;
            &&& wsp_run_end(s, 31 + b) == 32 + b
            &&& field_run_end(s, 32 + b) == 32 + b + l2
            &&& 32 + b + l2 < s.len() && s[32 + b + l2] == ','
            &&& s.subrange(32 + b, 32 + b + l2) == target
            &&& wsp_run_end(s, 33 + b + l2) == 34 + b + l2
            &&& matches_at(s, size_pat(), 34 + b + l2)
            &&& wsp_run_end(s, 39 + b + l2) == 40 + b + l2
            &&& numdot_run_end(s, 40 + b + l2) == 40 + b + l2 + n2
            &&& wsp_run_end(s, 40 + b + l2 + n2) == 41 + b + l2 + n2
            &&& matches_at(s, mb_pat(), 41 + b + l2 + n2)
            &&& s.subrange(40 + b + l2, 43 + b + l2 + n2) == d2 + seq![' '] + mb_pat()
            &&& 43 + b + l2 + n2 < s.len() && s[43 + b + l2 + n2] == ','
            &&& wsp_run_end(s, 44 + b + l2 + n2) == 45 + b + l2 + n2
            &&& numdot_run_end(s, 45 + b + l2 + n2) == 45 + b + l2 + n2 + n3
            &&& wsp_run_end(s, 45 + b + l2 + n2 + n3) == 46 + b + l2 + n2 + n3
            &&& matches_at(s, mb_pat(), 46 + b + l2 + n2 + n3)
            &&& s.subrange(45 + b + l2 + n2, 48 + b + l2 + n2 + n3) == d3 + seq![' '] + mb_pat()
            &&& wsp_run_end(s, 48 + b + l2 + n2 + n3) == 49 + b + l2 + n2 + n3
            &&& matches_at(s, smaller_pat(), 49 + b + l2 + n2 + n3)
            &&& wsp_run_end(s, 56 + b + l2 + n2 + n3) == 57 + b + l2 + n2 + n3
            &&& matches_at(s, than_pat(), 57 + b + l2 + n2 + n3)
            &&& wsp_run_end(s, 61 + b + l2 + n2 + n3) == 62 + b + l2 + n2 + n3
            &&& matches_at(s, origin_pat(), 62 + b + l2 + n2 + n3)
        }),
{
    reveal(summary_line_of);
    let s = summary_line_of(source, d1, target, d2, d3);
    let l1 = source.len() as int;
    let n1 = d1.len() as int;
    let l2 = target.len() as int;
    let n2 = d2.len() as int;
    let n3 = d3.len() as int;
    let o12 = 24 + l1 + n1;
    let o14 = 32 + l1 + n1;
    let o16 = 34 + l1 + n1 + l2;
    let o18 = 40 + l1 + n1 + l2;
    let o20 = 41 + l1 + n1 + l2 + n2;
    let o22 = 45 + l1 + n1 + l2 + n2;
    let o24 = 46 + l1 + n1 + l2 + n2 + n3;
    let o26 = 49 + l1 + n1 + l2 + n2 + n3;
    let o28 = 57 + l1 + n1 + l2 + n2 + n3;
    let o30 = 62 + l1 + n1 + l2 + n2 + n3;
    assert(s[o12 + 7] == ' ' && s[o14] == target[0]);
    crate::chars::lemma_wsp_run_value(s, o12 + 7, o14);
    assert forall|j: int| o14 <= j < o14 + l2 implies !(#[trigger] s[j] == ',' || s[j] == '\n') by {
        assert(s[j] == target[j - o14]);
    }
    assert(s[o14 + l2] == ',');
    crate::chars::lemma_field_run_value(s, o14, o14 + l2);
    assert(s.subrange(o14, o14 + l2) =~= target);
    assert(s[o14 + l2 + 1] == ' ' && s[o16] == 'S');
    crate::chars::lemma_wsp_run_value(s, o14 + l2 + 1, o16);
    assert(s.subrange(o16, o16 + 5) =~= size_pat());
    assert(s[o16 + 5] == ' ' && s[o18] == d2[0]);
    crate::chars::lemma_wsp_run_value(s, o16 + 5, o18);
    assert forall|j: int|
        o18 <= j < o18 + n2 implies crate::chars::is_digit(#[trigger] s[j]) || s[j] == '.' by {
        assert(s[j] == d2[j - o18]);
    }
    assert(s[o18 + n2] == ' ');
    crate::chars::lemma_numdot_run_value(s, o18, o18 + n2);
    assert(s[o20] == 'M');
    crate::chars::lemma_wsp_run_value(s, o18 + n2, o20);
    assert(s.subrange(o20, o20 + 2) =~= mb_pat());
    assert(s.subrange(o18, o20 + 2) =~= d2 + seq![' '] + mb_pat());
    assert(s[o20 + 2] == ',' && s[o20 + 3] == ' ' && s[o22] == d3[0]);
    crate::chars::lemma_wsp_run_value(s, o20 + 3, o22);
    assert forall|j: int|
        o22 <= j < o22 + n3 implies crate::chars::is_digit(#[trigger] s[j]) || s[j] == '.' by {
        assert(s[j] == d3[j - o22]);
    }
    assert(s[o22 + n3] == ' ');
    crate::chars::lemma_numdot_run_value(s, o22, o22 + n3);
    assert(s[o24] == 'M');
    crate::chars::lemma_wsp_run_value(s, o22 + n3, o24);
    assert(s.subrange(o24, o24 + 2) =~= mb_pat());
    assert(s.subrange(o22, o24 + 2) =~= d3 + seq![' '] + mb_pat());
    assert(s[o24 + 2] == ' ' && s[o26] == 's');
    crate::chars::lemma_wsp_run_value(s, o24 + 2, o26);
    assert(s.subrange(o26, o26 + 7) =~= smaller_pat());
    assert(s[o26 + 7] == ' ' && s[o28] == 't');
    crate::chars::lemma_wsp_run_value(s, o26 + 7, o28);
    assert(s.subrange(o28, o28 + 4) =~= than_pat());
    assert(s[o28 + 4] == ' ' && s[o30] == 'o');
    crate::chars::lemma_wsp_run_value(s, o28 + 4, o30);
    assert(s.subrange(o30, o30 + 6) =~= origin_pat());
}

/// The value of the output half of an assembled summary line.
#[verifier::rlimit(90)]
#[verifier::spinoff_prover]
proof fn lemma_summary_tail_value(
    source: Seq<char>,
    d1: Seq<char>,
    target: Seq<char>,
    d2: Seq<char>,
    d3: Seq<char>,
)
    requires
        wf_summary_field(source),
        wf_summary_field(target),
        wf_summary_number(d1),
        wf_summary_number(d2),
        wf_summary_number(d3),
    ensures
        summary_line_tail(
            summary_line_of(source, d1, target, d2, d3),
            source,
            d1 + seq![' '] + mb_pat(),
            24 + source.len() as int + d1.len() as int,
        ) == Some(
            SummaryModel {
                source,
                source_size: d1 + seq![' '] + mb_pat(),
                target,
                target_size: d2 + seq![' '] + mb_pat(),
                reduce_size: d3 + seq![' '] + mb_pat(),
            },
        ),
{
    lemma_summary_line_second_half(source, d1, target, d2, d3);
}

/// Law: summary parsing round-trips the five fields verbatim — a summary
/// line assembled from any well-formed pieces parses back to exactly those
/// pieces, the size captures carrying their `MB` unit.
#[verifier::rlimit(90)]
#[verifier::spinoff_prover]
pub proof fn lemma_summary_round_trip(
    source: Seq<char>,
    d1: Seq<char>,
    target: Seq<char>,
    d2: Seq<char>,
    d3: Seq<char>,
)
    requires
        wf_summary_field(source),
        wf_summary_field(target),
        wf_summary_number(d1),
        wf_summary_number(d2),
        wf_summary_number(d3),
    ensures
        summary_line_spec(summary_line_of(source, d1, target, d2, d3)) == Some(
            SummaryModel {
                source,
                source_size: d1 + seq![' '] + mb_pat(),
                target,
                target_size: d2 + seq![' '] + mb_pat(),
                reduce_size: d3 + seq![' '] + mb_pat(),
            },
        ),
{
    let s = summary_line_of(source, d1, target, d2, d3);
    lemma_summary_line_first_half(source, d1, target, d2, d3);
    lemma_summary_tail_value(source, d1, target, d2, d3);
    assert(is_first_match_from(s, input_pat(), 0, 0));
    lemma_first_match_unique(
        s,
        input_pat(),
        0,
        0,
        choose|k: int| is_first_match_from(s, input_pat(), 0, k),
    );
}

/// Classifies a per-file size summary line, keeping its five captures
/// verbatim; any line without that shape yields `None`.
#[verifier::rlimit(90)]
#[verifier::spinoff_prover]
pub fn try_summary_line(line: &str) -> (r: Option<Summary>)
    ensures
        match r {
            Some(sm) => summary_line_spec(line@) == Some(sm@),
            None => summary_line_spec(line@) is None,
        },
{
    let n = line.unicode_len();
    proof {
        reveal_strlit("Input:");
        assert("Input:"@ =~= input_pat());
        reveal_strlit("Size:");
        assert("Size:"@ =~= size_pat());
        reveal_strlit("MB");
        assert("MB"@ =~= mb_pat());
        reveal_strlit("===>");
        assert("===>"@ =~= eqarrow_pat());
        reveal_strlit("Output:");
        assert("Output:"@ =~= output_pat());
        reveal_strlit("smaller");
        assert("smaller"@ =~= smaller_pat());
        reveal_strlit("than");
        assert("than"@ =~= than_pat());
        reveal_strlit("origin");
        assert("origin"@ =~= origin_pat());
    }
    let i0 = match find_first(line, "Input:", 0) {
        None => {
            return None;
        },
        Some(i) => i,
    };
    proof {
        lemma_first_match_exists(line@, input_pat(), i0 as int);
        lemma_first_match_unique(
            line@,
            input_pat(),
            0,
            i0 as int,
            choose|k: int| is_first_match_from(line@, input_pat(), 0, k),
        );
    }
    let p1 = wsp_scan(line, i0 + 6);
    let se = field_scan(line, p1);
    if se == p1 || !(se < n && line.get_char(se) == ',') {
        return None;
    }
    let source = line.substring_char(p1, se);
    let p2 = wsp_scan(line, se + 1);
    if !occurs_at(line, "Size:", p2) {
        return None;
    }
    let p3 = wsp_scan(line, p2 + 5);
    let ne = numdot_scan(line, p3);
    if ne == p3 {
        return None;
    }
    let p4 = wsp_scan(line, ne);
    if !occurs_at(line, "MB", p4) {
        return None;
    }
    let source_size = line.substring_char(p3, p4 + 2);
    let p5 = wsp_scan(line, p4 + 2);
    if !occurs_at(line, "===>", p5) {
        return None;
    }
    let p6 = wsp_scan(line, p5 + 4);
    if !occurs_at(line, "Output:", p6) {
        return None;
    }
    let p7 = wsp_scan(line, p6 + 7);
    let te = field_scan(line, p7);
    if te == p7 || !(te < n && line.get_char(te) == ',') {
        return None;
    }
    let target = line.substring_char(p7, te);
    let p8 = wsp_scan(line, te + 1);
    if !occurs_at(line, "Size:", p8) {
        return None;
    }
    let p9 = wsp_scan(line, p8 + 5);
    let me = numdot_scan(line, p9);
    if me == p9 {
        return None;
    }
    let p10 = wsp_scan(line, me);
    if !occurs_at(line, "MB", p10) {
        return None;
    }
    let target_size = line.substring_char(p9, p10 + 2);
    if !(p10 + 2 < n && line.get_char(p10 + 2) == ',') {
        return None;
    }
    let p11 = wsp_scan(line, p10 + 3);
    let re = numdot_scan(line, p11);
    if re == p11 {
        return None;
    }
    let p12 = wsp_scan(line, re);
    if !occurs_at(line, "MB", p12) {
        return None;
    }
    let reduce_size = line.substring_char(p11, p12 + 2);
    let p13 = wsp_scan(line, p12 + 2);
    if !occurs_at(line, "smaller", p13) {
        return None;
    }
    let p14 = wsp_scan(line, p13 + 7);
    if !occurs_at(line, "than", p14) {
        return None;
    }
    let p15 = wsp_scan(line, p14 + 4);
    if !occurs_at(line, "origin", p15) {
        return None;
    }
    Some(
        Summary {
            source: String::from_str(source),
            source_size: String::from_str(source_size),
            target: String::from_str(target),
            target_size: String::from_str(target_size),
            reduce_size: String::from_str(reduce_size),
        },
    )
}

} // verus!
