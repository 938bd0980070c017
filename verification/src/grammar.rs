//! The grammar, stated mathematically over `Seq<char>`.
//!
//! Every rule is a `spec` function over the remaining input (a suffix of the
//! original buffer, viewed as a sequence of characters).  A rule either
//! consumes a prefix — the functions return how many characters — or fails,
//! consuming nothing; ordered choice tries the alternatives at the same
//! position.  The executable parsers in `parsers` are proved to return
//! exactly what these functions describe.

use vstd::prelude::*;

use crate::ast::{BlockTagModel, BodyItemModel, DescriptionModel, DocCommentModel, InlineTagModel};
use crate::chars::{has_non_ws, is_ascii_alpha, is_hspace, is_mspace, is_name_char};
use crate::trace::{Rule, TraceKind};

verus! {

/// The suffix of `s` that starts at `i`.
pub open spec fn suffix(s: Seq<char>, i: int) -> Seq<char> {
    s.subrange(i, s.len() as int)
}

/// End of the run of horizontal whitespace (spaces and tabs) starting at `i`.
pub open spec fn hspace_end(s: Seq<char>, i: int) -> int
    decreases s.len() - i,
{
    if 0 <= i < s.len() && is_hspace(s[i]) {
        hspace_end(s, i + 1)
    } else {
        i
    }
}

/// End of the run of whitespace (including line breaks) starting at `i`.
pub open spec fn mspace_end(s: Seq<char>, i: int) -> int
    decreases s.len() - i,
{
    if 0 <= i < s.len() && is_mspace(s[i]) {
        mspace_end(s, i + 1)
    } else {
        i
    }
}

/// End of the run of tag-name characters starting at `i`.
pub open spec fn name_end(s: Seq<char>, i: int) -> int
    decreases s.len() - i,
{
    if 0 <= i < s.len() && is_name_char(s[i]) {
        name_end(s, i + 1)
    } else {
        i
    }
}

/// The 3-character marker `/**` opening a comment stands at `i`.
pub open spec fn open_marker_at(s: Seq<char>, i: int) -> bool {
    &&& 0 <= i
    &&& i + 3 <= s.len()
    &&& s[i] == '/'
    &&& s[i + 1] == '*'
    &&& s[i + 2] == '*'
}

/// The 2-character marker `*/` closing a comment stands at `i`.
pub open spec fn close_marker_at(s: Seq<char>, i: int) -> bool {
    &&& 0 <= i
    &&& i + 2 <= s.len()
    &&& s[i] == '*'
    &&& s[i + 1] == '/'
}

/// Length of a line terminator at `i`: `\n` is one character, `\r\n` two;
/// anything else (including a bare `\r`) is none.
pub open spec fn line_ending_len(s: Seq<char>, i: int) -> Option<int> {
    if 0 <= i < s.len() && s[i] == '\n' {
        Some(1int)
    } else if 0 <= i && i + 1 < s.len() && s[i] == '\r' && s[i + 1] == '\n' {
        Some(2int)
    } else {
        None
    }
}

/// Position after an optional line terminator at `i`.
pub open spec fn opt_line_ending_end(s: Seq<char>, i: int) -> int {
    match line_ending_len(s, i) {
        Some(l) => i + l,
        None => i,
    }
}

/// `comment_start`: the open marker, a run of horizontal whitespace, and an
/// optional line terminator.  Returns the consumed length, or `None` when the
/// open marker is absent.
pub open spec fn sp_comment_start(s: Seq<char>) -> Option<int> {
    if open_marker_at(s, 0) {
        Some(opt_line_ending_end(s, hspace_end(s, 3)))
    } else {
        None
    }
}

/// Trace of a `comment_start` failure.
pub open spec fn sp_comment_start_trace(s: Seq<char>) -> Seq<(Seq<char>, TraceKind)> {
    seq![(s, TraceKind::Tag), (s, TraceKind::Context(Rule::CommentStart))]
}

/// `comment_end`: a run of whitespace (line breaks included) followed by the
/// close marker.  Returns the consumed length.
pub open spec fn sp_comment_end(s: Seq<char>) -> Option<int> {
    let a = mspace_end(s, 0);
    if close_marker_at(s, a) {
        Some(a + 2)
    } else {
        None
    }
}

/// Trace of a `comment_end` failure: the close marker was missing after the
/// whitespace run.
pub open spec fn sp_comment_end_trace(s: Seq<char>) -> Seq<(Seq<char>, TraceKind)> {
    seq![
        (suffix(s, mspace_end(s, 0)), TraceKind::Tag),
        (s, TraceKind::Context(Rule::CommentEnd)),
    ]
}

/// `line_leading`: optional horizontal whitespace, then a `*` continuation
/// marker that must not begin the close marker, then optional horizontal
/// whitespace.  Returns the consumed length.
pub open spec fn sp_line_leading(s: Seq<char>) -> Option<int> {
    let a = hspace_end(s, 0);
    if close_marker_at(s, a) {
        None
    } else if a < s.len() && s[a] == '*' {
        Some(hspace_end(s, a + 1))
    } else {
        None
    }
}

/// Trace of a `line_leading` failure: either the upcoming text is the close
/// marker, or the continuation marker is missing.
pub open spec fn sp_line_leading_trace(s: Seq<char>) -> Seq<(Seq<char>, TraceKind)> {
    let a = hspace_end(s, 0);
    if close_marker_at(s, a) {
        seq![(suffix(s, a), TraceKind::Not), (s, TraceKind::Context(Rule::LineLeading))]
    } else {
        seq![(suffix(s, a), TraceKind::Tag), (s, TraceKind::Context(Rule::LineLeading))]
    }
}

/// `tag_name`: `@`, an ASCII letter, then letters, digits and underscores.
/// Returns the end of the name; the name itself is `s[1 .. end]`.
pub open spec fn sp_tag_name(s: Seq<char>) -> Option<int> {
    if s.len() >= 2 && s[0] == '@' && is_ascii_alpha(s[1]) {
        Some(name_end(s, 2))
    } else {
        None
    }
}

/// Trace of a `tag_name` failure: the `@` itself, or the leading letter, was
/// missing.
pub open spec fn sp_tag_name_trace(s: Seq<char>) -> Seq<(Seq<char>, TraceKind)> {
    if s.len() >= 1 && s[0] == '@' {
        seq![(suffix(s, 1), TraceKind::Alpha), (s, TraceKind::Context(Rule::TagName))]
    } else {
        seq![(s, TraceKind::Tag), (s, TraceKind::Context(Rule::TagName))]
    }
}

/// One caller-supplied delimiter token for the escaped scanner: its text and
/// whether a preceding backslash disables it.
pub struct TokenModel {
    pub text: Seq<char>,
    pub escapable: bool,
}

/// Token number `k` matches at `i`, given the current escaping state: its
/// text is a prefix of the input there, and if it is escapable the state is
/// clear.
pub open spec fn token_matches(
    toks: Seq<TokenModel>,
    k: int,
    s: Seq<char>,
    i: int,
    esc: bool,
) -> bool {
    &&& i + toks[k].text.len() <= s.len()
    &&& toks[k].text == s.subrange(i, i + toks[k].text.len() as int)
    &&& (toks[k].escapable ==> !esc)
}

/// Some token matches at `i`, given the current escaping state.
pub open spec fn token_match_at(toks: Seq<TokenModel>, s: Seq<char>, i: int, esc: bool) -> bool {
    exists|k: int| 0 <= k < toks.len() && #[trigger] token_matches(toks, k, s, i, esc)
}

/// The escaped delimiter scanner: walk from `i` keeping a one-bit escaping
/// state — a backslash that is not itself escaped sets it, any other
/// character clears it.  Skipping such a backslash checks no tokens at its
/// position.  Stop at the first position where a token matches (escapable
/// tokens only match with the state clear); if none ever does, stop at the
/// end.  The scanner never fails.
pub open spec fn sp_scan(toks: Seq<TokenModel>, s: Seq<char>, i: int, esc: bool) -> int
    decreases s.len() - i,
{
    if !(0 <= i < s.len()) {
        s.len() as int
    } else if s[i] == '\\' && !esc {
        sp_scan(toks, s, i + 1, true)
    } else if token_match_at(toks, s, i, esc) {
        i
    } else {
        sp_scan(toks, s, i + 1, false)
    }
}

/// The tokens that bound a body text segment: `{`, `}` and `@` escapable,
/// `\r`, `\n` and the close marker not.
pub open spec fn body_tokens_model() -> Seq<TokenModel> {
    seq![
        TokenModel { text: seq!['{'], escapable: true },
        TokenModel { text: seq!['}'], escapable: true },
        TokenModel { text: seq!['@'], escapable: true },
        TokenModel { text: seq!['\r'], escapable: false },
        TokenModel { text: seq!['\n'], escapable: false },
        TokenModel { text: seq!['*', '/'], escapable: false },
    ]
}

/// The delimiter set that bounds a body text segment: `{`, `}` and `@` when
/// not escaped, and `\r`, `\n` and the close marker unconditionally.
pub open spec fn body_text_delimiter_at(s: Seq<char>, i: int, esc: bool) -> bool {
    ||| (!esc && (s[i] == '{' || s[i] == '}' || s[i] == '@'))
    ||| s[i] == '\r'
    ||| s[i] == '\n'
    ||| close_marker_at(s, i)
}

/// The escaped scanner specialized to the body text delimiters.
pub open spec fn sp_scan_text(s: Seq<char>, i: int, esc: bool) -> int
    decreases s.len() - i,
{
    if !(0 <= i < s.len()) {
        s.len() as int
    } else if s[i] == '\\' && !esc {
        sp_scan_text(s, i + 1, true)
    } else if body_text_delimiter_at(s, i, esc) {
        i
    } else {
        sp_scan_text(s, i + 1, false)
    }
}

/// `body_text_segment`: a bare line terminator, or a scan up to the next
/// body text delimiter followed by an optional line terminator, where the
/// scanned text must contain at least one non-whitespace character.  Returns
/// the consumed length; the segment is `s[0 .. len]`.
pub open spec fn sp_body_text_segment(s: Seq<char>) -> Option<int> {
    match line_ending_len(s, 0) {
        Some(l) => Some(l),
        None => {
            let j = sp_scan_text(s, 0, false);
            if 0 < j && has_non_ws(s.subrange(0, j)) {
                Some(opt_line_ending_end(s, j))
            } else {
                None
            }
        },
    }
}

/// Trace of a `body_text_segment` failure: the scanned text was empty or
/// all whitespace.
pub open spec fn sp_body_text_segment_trace(s: Seq<char>) -> Seq<(Seq<char>, TraceKind)> {
    seq![
        (s, TraceKind::Verify),
        (s, TraceKind::Alt),
        (s, TraceKind::Context(Rule::BodyTextSegment)),
    ]
}

/// The tokens that bound an inline tag body line: `{` and `}` escapable,
/// `\r` and `\n` not.
pub open spec fn line_tokens_model() -> Seq<TokenModel> {
    seq![
        TokenModel { text: seq!['{'], escapable: true },
        TokenModel { text: seq!['}'], escapable: true },
        TokenModel { text: seq!['\r'], escapable: false },
        TokenModel { text: seq!['\n'], escapable: false },
    ]
}

/// The delimiter set that bounds an inline tag body line: `{` and `}` when
/// not escaped, and `\r` and `\n` unconditionally.
pub open spec fn line_delimiter_at(s: Seq<char>, i: int, esc: bool) -> bool {
    ||| (!esc && (s[i] == '{' || s[i] == '}'))
    ||| s[i] == '\r'
    ||| s[i] == '\n'
}

/// The escaped scanner specialized to the body line delimiters.  It never
/// fails: a backslash escapes a following brace into literal text, and a
/// backslash before anything else, or at the end of the input, is itself
/// ordinary text; a line break stops the scan regardless.
pub open spec fn sp_scan_line(s: Seq<char>, i: int, esc: bool) -> int
    decreases s.len() - i,
{
    if !(0 <= i < s.len()) {
        s.len() as int
    } else if s[i] == '\\' && !esc {
        sp_scan_line(s, i + 1, true)
    } else if line_delimiter_at(s, i, esc) {
        i
    } else {
        sp_scan_line(s, i + 1, false)
    }
}

/// `inline_tag_body_line`: a bare line terminator, or a non-empty scan up to
/// the next body line delimiter followed by an optional line terminator.
/// Returns the consumed length; the line is `s[0 .. len]`.  The only failure
/// is an empty scan.
pub open spec fn sp_inline_tag_body_line(s: Seq<char>) -> Option<int> {
    match line_ending_len(s, 0) {
        Some(l) => Some(l),
        None => {
            let j = sp_scan_line(s, 0, false);
            if 0 < j {
                Some(opt_line_ending_end(s, j))
            } else {
                None
            }
        },
    }
}

/// Trace of an `inline_tag_body_line` failure: the scanned text was empty
/// and the input did not begin with a line terminator.
pub open spec fn sp_inline_tag_body_line_trace(s: Seq<char>) -> Seq<(Seq<char>, TraceKind)> {
    seq![
        (s, TraceKind::NonEmpty),
        (s, TraceKind::Alt),
        (s, TraceKind::Context(Rule::InlineTagBodyLine)),
    ]
}

/// The continuation of an inline tag body after its first line: repeatedly a
/// `line_leading` separator and a further line.  A trailing separator with no
/// line after it is not consumed.  Returns the lines and the end position.
pub open spec fn sp_body_lines_cont(s: Seq<char>, i: int) -> (Seq<Seq<char>>, int)
    decreases s.len() - i,
{
    if !(0 <= i <= s.len()) {
        (Seq::empty(), i)
    } else {
        match sp_line_leading(suffix(s, i)) {
            None => (Seq::empty(), i),
            Some(d) => {
                let j = i + d;
                match sp_inline_tag_body_line(suffix(s, j)) {
                    Some(c) => {
                        let k = j + c;
                        if i < k <= s.len() {
                            let r = sp_body_lines_cont(s, k);
                            (seq![s.subrange(j, k)] + r.0, r.1)
                        } else {
                            (Seq::empty(), i)
                        }
                    },
                    None => (Seq::empty(), i),
                }
            },
        }
    }
}

/// `inline_tag_body`: one or more body lines separated by `line_leading`.
/// Fails exactly when the first line does.
pub open spec fn sp_inline_tag_body(s: Seq<char>) -> Option<(Seq<Seq<char>>, int)> {
    match sp_inline_tag_body_line(s) {
        Some(c) => {
            let r = sp_body_lines_cont(s, c);
            Some((seq![s.subrange(0, c)] + r.0, r.1))
        },
        None => None,
    }
}

/// Trace of an `inline_tag_body` failure.
pub open spec fn sp_inline_tag_body_trace(s: Seq<char>) -> Seq<(Seq<char>, TraceKind)> {
    sp_inline_tag_body_line_trace(s) + seq![(s, TraceKind::Context(Rule::InlineTagBody))]
}

/// Result of `inline_tag`: the tag and the consumed length, or one of its
/// failures — no opening brace, a bad tag name, or no closing brace (at the
/// given position).
pub enum InlineTagScan {
    Done(InlineTagModel, int),
    ErrOpen,
    ErrName,
    ErrClose(int),
}

/// `inline_tag`: `{`, a tag name, an optional body (optionally preceded by
/// horizontal whitespace), an optional `line_leading`, and `}`.
pub open spec fn sp_inline_tag(s: Seq<char>) -> InlineTagScan {
    if !(1 <= s.len() && s[0] == '{') {
        InlineTagScan::ErrOpen
    } else {
        match sp_tag_name(suffix(s, 1)) {
            None => InlineTagScan::ErrName,
            Some(ne) => {
                let p = 1 + ne;
                let name = s.subrange(2, p);
                let q = hspace_end(s, p);
                let (lines, r0): (Seq<Seq<char>>, int) = match sp_inline_tag_body(suffix(s, q)) {
                    Some((ls, c)) => (ls, q + c),
                    None => (Seq::empty(), p),
                };
                let r1 = match sp_line_leading(suffix(s, r0)) {
                    Some(d) => r0 + d,
                    None => r0,
                };
                if r1 < s.len() && s[r1] == '}' {
                    InlineTagScan::Done(InlineTagModel { name, body_lines: lines }, r1 + 1)
                } else {
                    InlineTagScan::ErrClose(r1)
                }
            },
        }
    }
}

/// Trace of an `inline_tag` failure.
pub open spec fn sp_inline_tag_trace(s: Seq<char>) -> Seq<(Seq<char>, TraceKind)> {
    match sp_inline_tag(s) {
        InlineTagScan::ErrName => sp_tag_name_trace(suffix(s, 1)) + seq![
            (s, TraceKind::Context(Rule::InlineTag)),
        ],
        InlineTagScan::ErrClose(p) => seq![
            (suffix(s, p), TraceKind::Char('}')),
            (s, TraceKind::Context(Rule::InlineTag)),
        ],
        _ => seq![(s, TraceKind::Char('{')), (s, TraceKind::Context(Rule::InlineTag))],
    }
}

/// Whether a body item makes its body meaningful: any inline tag does, and a
/// text segment does when it has a non-whitespace character.
pub open spec fn item_meaningful(it: BodyItemModel) -> bool {
    match it {
        BodyItemModel::InlineTag(_) => true,
        BodyItemModel::TextSegment(t) => has_non_ws(t),
    }
}

/// A body is meaningful when some item is.
pub open spec fn body_meaningful(items: Seq<BodyItemModel>) -> bool {
    exists|k: int| 0 <= k < items.len() && item_meaningful(#[trigger] items[k])
}

/// One step of the body engine at `i`, trying in order: a `line_leading`
/// (discarded), a run of horizontal whitespace (discarded), an inline tag,
/// a text segment.  Returns the item, if any, and the next position.
pub open spec fn sp_body_step(s: Seq<char>, i: int) -> Option<(Option<BodyItemModel>, int)> {
    let t = suffix(s, i);
    match sp_line_leading(t) {
        Some(d) => Some((None, i + d)),
        None => {
            if i < s.len() && is_hspace(s[i]) {
                Some((None, hspace_end(s, i)))
            } else {
                match sp_inline_tag(t) {
                    InlineTagScan::Done(tag, c) => Some(
                        (Some(BodyItemModel::InlineTag(tag)), i + c),
                    ),
                    _ => match sp_body_text_segment(t) {
                        Some(c) => Some(
                            (Some(BodyItemModel::TextSegment(s.subrange(i, i + c))), i + c),
                        ),
                        None => None,
                    },
                }
            }
        },
    }
}

/// The body engine: steps until no alternative matches, accumulating the
/// items in source order.  Returns the items and the end position.
pub open spec fn sp_body_items(s: Seq<char>, i: int) -> (Seq<BodyItemModel>, int)
    decreases s.len() - i,
{
    if !(0 <= i <= s.len()) {
        (Seq::empty(), i)
    } else {
        match sp_body_step(s, i) {
            None => (Seq::empty(), i),
            Some((it, j)) => {
                if i < j <= s.len() {
                    let r = sp_body_items(s, j);
                    (
                        match it {
                            Some(x) => seq![x] + r.0,
                            None => r.0,
                        },
                        r.1,
                    )
                } else {
                    (Seq::empty(), i)
                }
            },
        }
    }
}

/// `body`: the engine must step at least once, and the accumulated items
/// must be meaningful; otherwise the body fails as a whole.
pub open spec fn sp_body(s: Seq<char>) -> Option<(Seq<BodyItemModel>, int)> {
    match sp_body_step(s, 0) {
        None => None,
        Some(_) => {
            let r = sp_body_items(s, 0);
            if body_meaningful(r.0) {
                Some(r)
            } else {
                None
            }
        },
    }
}

/// Trace of a `body` failure: no alternative matched at all, or the items
/// were all blank.
pub open spec fn sp_body_trace(s: Seq<char>) -> Seq<(Seq<char>, TraceKind)> {
    if sp_body_step(s, 0) is None {
        seq![(s, TraceKind::Many1)]
    } else {
        seq![(s, TraceKind::Verify)]
    }
}

/// `description`: a meaningful body.
pub open spec fn sp_description(s: Seq<char>) -> Option<(DescriptionModel, int)> {
    match sp_body(s) {
        Some((items, c)) => Some((DescriptionModel { body_items: items }, c)),
        None => None,
    }
}

/// Trace of a `description` failure.
pub open spec fn sp_description_trace(s: Seq<char>) -> Seq<(Seq<char>, TraceKind)> {
    sp_body_trace(s) + seq![(s, TraceKind::Context(Rule::Description))]
}

/// `block_tag`: a tag name, optional horizontal whitespace, and an optional
/// body; a block tag with no meaningful body keeps an empty item list.
pub open spec fn sp_block_tag(s: Seq<char>) -> Option<(BlockTagModel, int)> {
    match sp_tag_name(s) {
        None => None,
        Some(ne) => {
            let p = hspace_end(s, ne);
            let name = s.subrange(1, ne);
            match sp_body(suffix(s, p)) {
                Some((items, c)) => Some((BlockTagModel { name, body_items: items }, p + c)),
                None => Some((BlockTagModel { name, body_items: Seq::empty() }, p)),
            }
        },
    }
}

/// Trace of a `block_tag` failure.
pub open spec fn sp_block_tag_trace(s: Seq<char>) -> Seq<(Seq<char>, TraceKind)> {
    sp_tag_name_trace(s) + seq![(s, TraceKind::Context(Rule::BlockTag))]
}

/// The repeated block tags after the description: each optionally preceded
/// by a `line_leading` and optionally followed by a line terminator.
pub open spec fn sp_tag_list(s: Seq<char>, i: int) -> (Seq<BlockTagModel>, int)
    decreases s.len() - i,
{
    if !(0 <= i <= s.len()) {
        (Seq::empty(), i)
    } else {
        let j = match sp_line_leading(suffix(s, i)) {
            Some(d) => i + d,
            None => i,
        };
        match sp_block_tag(suffix(s, j)) {
            None => (Seq::empty(), i),
            Some((bt, c)) => {
                let k = opt_line_ending_end(s, j + c);
                if i < k <= s.len() {
                    let r = sp_tag_list(s, k);
                    (seq![bt] + r.0, r.1)
                } else {
                    (Seq::empty(), i)
                }
            },
        }
    }
}

/// Result of `doc_comment` on the whole input: the comment, or one of the
/// failures that reach the caller — a bad open marker, a bad close marker
/// (after the given position), or leftover input (at the given position).
pub enum DocScan {
    Done(DocCommentModel),
    ErrStart,
    ErrEnd(int),
    ErrEof(int),
}

/// `doc_comment`: the open marker, an optional `line_leading`, an optional
/// description, the block tags, and the close marker, which must end the
/// input exactly.
pub open spec fn sp_doc_comment(s: Seq<char>) -> DocScan {
    match sp_comment_start(s) {
        None => DocScan::ErrStart,
        Some(a) => {
            let b = match sp_line_leading(suffix(s, a)) {
                Some(d) => a + d,
                None => a,
            };
            let (desc, d): (Option<DescriptionModel>, int) = match sp_description(suffix(s, b)) {
                Some((dm, c)) => (Some(dm), b + c),
                None => (None, b),
            };
            let r = sp_tag_list(s, d);
            match sp_comment_end(suffix(s, r.1)) {
                None => DocScan::ErrEnd(r.1),
                Some(c2) => {
                    let f = r.1 + c2;
                    if f == s.len() {
                        DocScan::Done(DocCommentModel { description: desc, block_tags: r.0 })
                    } else {
                        DocScan::ErrEof(f)
                    }
                },
            }
        },
    }
}

/// Trace of a `doc_comment` failure.
pub open spec fn sp_doc_comment_trace(s: Seq<char>) -> Seq<(Seq<char>, TraceKind)> {
    match sp_doc_comment(s) {
        DocScan::ErrEnd(e0) => sp_comment_end_trace(suffix(s, e0)) + seq![
            (s, TraceKind::Context(Rule::DocComment)),
        ],
        DocScan::ErrEof(f) => seq![
            (suffix(s, f), TraceKind::Eof),
            (s, TraceKind::Context(Rule::DocComment)),
        ],
        _ => sp_comment_start_trace(s) + seq![(s, TraceKind::Context(Rule::DocComment))],
    }
}

/// Every entry of a `doc_comment` failure trace holds at most as much text
/// as the whole input: each is a suffix of it.
#[verifier::rlimit(60)]
pub proof fn lemma_doc_trace_entries(s: Seq<char>)
    ensures
        forall|j: int|
            0 <= j < sp_doc_comment_trace(s).len() ==> (#[trigger] sp_doc_comment_trace(s)[j]).0.len()
                <= s.len(),
{
    lemma_comment_start_bounds(s);
    if let Some(a) = sp_comment_start(s) {
        lemma_line_leading_bounds(suffix(s, a));
        let b = match sp_line_leading(suffix(s, a)) {
            Some(d) => a + d,
            None => a,
        };
        lemma_body_bounds(suffix(s, b));
        let d = match sp_description(suffix(s, b)) {
            Some((dm, c)) => b + c,
            None => b,
        };
        lemma_tag_list_bounds(s, d);
        let e0 = sp_tag_list(s, d).1;
        lemma_comment_end_bounds(suffix(s, e0));
        lemma_mspace_end(suffix(s, e0), 0);
    }
}

/// The whole parse: the comment the input describes, if it is valid.
pub open spec fn sp_parse(s: Seq<char>) -> Option<DocCommentModel> {
    match sp_doc_comment(s) {
        DocScan::Done(m) => Some(m),
        _ => None,
    }
}

/// Taking a suffix of a suffix is taking one suffix.
pub proof fn lemma_suffix_suffix(s: Seq<char>, i: int, j: int)
    requires
        0 <= i,
        0 <= j,
        i + j <= s.len(),
    ensures
        suffix(suffix(s, i), j) == suffix(s, i + j),
{
    assert(suffix(suffix(s, i), j) =~= suffix(s, i + j));
}

/// A subrange of a suffix is a subrange of the whole.
pub proof fn lemma_suffix_subrange(s: Seq<char>, i: int, a: int, b: int)
    requires
        0 <= i <= s.len(),
        0 <= a <= b <= s.len() - i,
    ensures
        suffix(s, i).subrange(a, b) == s.subrange(i + a, i + b),
{
    assert(suffix(s, i).subrange(a, b) =~= s.subrange(i + a, i + b));
}

/// A line terminator within a suffix, shifted back to the whole sequence.
pub proof fn lemma_line_ending_shift(s: Seq<char>, x: int)
    requires
        0 <= x <= s.len(),
    ensures
        line_ending_len(s, x) == line_ending_len(suffix(s, x), 0),
        opt_line_ending_end(s, x) == x + opt_line_ending_end(suffix(s, x), 0),
{
}

/// Bounds and content of a horizontal whitespace run.
pub proof fn lemma_hspace_end(s: Seq<char>, i: int)
    requires
        0 <= i <= s.len(),
    ensures
        i <= hspace_end(s, i) <= s.len(),
        forall|k: int| i <= k < hspace_end(s, i) ==> is_hspace(#[trigger] s[k]),
        hspace_end(s, i) < s.len() ==> !is_hspace(s[hspace_end(s, i)]),
    decreases s.len() - i,
{
    if i < s.len() && is_hspace(s[i]) {
        lemma_hspace_end(s, i + 1);
    }
}

/// Bounds and content of a whitespace run.
pub proof fn lemma_mspace_end(s: Seq<char>, i: int)
    requires
        0 <= i <= s.len(),
    ensures
        i <= mspace_end(s, i) <= s.len(),
        forall|k: int| i <= k < mspace_end(s, i) ==> is_mspace(#[trigger] s[k]),
        mspace_end(s, i) < s.len() ==> !is_mspace(s[mspace_end(s, i)]),
    decreases s.len() - i,
{
    if i < s.len() && is_mspace(s[i]) {
        lemma_mspace_end(s, i + 1);
    }
}

/// Bounds and content of a tag-name character run.
pub proof fn lemma_name_end(s: Seq<char>, i: int)
    requires
        0 <= i <= s.len(),
    ensures
        i <= name_end(s, i) <= s.len(),
        forall|k: int| i <= k < name_end(s, i) ==> is_name_char(#[trigger] s[k]),
        name_end(s, i) < s.len() ==> !is_name_char(s[name_end(s, i)]),
    decreases s.len() - i,
{
    if i < s.len() && is_name_char(s[i]) {
        lemma_name_end(s, i + 1);
    }
}

/// Bounds of an optional line terminator.
pub proof fn lemma_opt_line_ending_end(s: Seq<char>, i: int)
    requires
        0 <= i <= s.len(),
    ensures
        i <= opt_line_ending_end(s, i) <= s.len(),
{
}

/// Bounds of the body text scanner.
pub proof fn lemma_scan_text_bounds(s: Seq<char>, i: int, esc: bool)
    requires
        0 <= i <= s.len(),
    ensures
        i <= sp_scan_text(s, i, esc) <= s.len(),
    decreases s.len() - i,
{
    if i < s.len() {
        if s[i] == '\\' && !esc {
            lemma_scan_text_bounds(s, i + 1, true);
        } else if !body_text_delimiter_at(s, i, esc) {
            lemma_scan_text_bounds(s, i + 1, false);
        }
    }
}

/// Bounds of the body line scanner.
pub proof fn lemma_scan_line_bounds(s: Seq<char>, i: int, esc: bool)
    requires
        0 <= i <= s.len(),
    ensures
        i <= sp_scan_line(s, i, esc) <= s.len(),
    decreases s.len() - i,
{
    if i < s.len() {
        if s[i] == '\\' && !esc {
            lemma_scan_line_bounds(s, i + 1, true);
        } else if !line_delimiter_at(s, i, esc) {
            lemma_scan_line_bounds(s, i + 1, false);
        }
    }
}

/// Bounds of an inline tag body line.
pub proof fn lemma_line_bounds(s: Seq<char>)
    ensures
        match sp_inline_tag_body_line(s) {
            Some(c) => 1 <= c <= s.len(),
            None => true,
        },
{
    lemma_scan_line_bounds(s, 0, false);
    let j = sp_scan_line(s, 0, false);
    lemma_opt_line_ending_end(s, if 0 <= j <= s.len() {
        j
    } else {
        0
    });
}

/// Bounds of a `line_leading`.
pub proof fn lemma_line_leading_bounds(s: Seq<char>)
    ensures
        match sp_line_leading(s) {
            Some(d) => 1 <= d <= s.len(),
            None => true,
        },
{
    lemma_hspace_end(s, 0);
    let a = hspace_end(s, 0);
    if !close_marker_at(s, a) && a < s.len() && s[a] == '*' {
        lemma_hspace_end(s, a + 1);
    }
}

/// Bounds of a `tag_name`.
pub proof fn lemma_tag_name_bounds(s: Seq<char>)
    ensures
        match sp_tag_name(s) {
            Some(ne) => 2 <= ne <= s.len(),
            None => true,
        },
{
    if s.len() >= 2 && s[0] == '@' && is_ascii_alpha(s[1]) {
        lemma_name_end(s, 2);
    }
}

/// Bounds of a `comment_start`.
pub proof fn lemma_comment_start_bounds(s: Seq<char>)
    ensures
        match sp_comment_start(s) {
            Some(a) => 3 <= a <= s.len(),
            None => true,
        },
{
    if open_marker_at(s, 0) {
        lemma_hspace_end(s, 3);
        lemma_opt_line_ending_end(s, hspace_end(s, 3));
    }
}

/// Bounds of a `comment_end`.
pub proof fn lemma_comment_end_bounds(s: Seq<char>)
    ensures
        match sp_comment_end(s) {
            Some(c) => 2 <= c <= s.len(),
            None => true,
        },
{
    lemma_mspace_end(s, 0);
}

/// Bounds of the inline tag body continuation.
pub proof fn lemma_body_lines_cont_bounds(s: Seq<char>, i: int)
    requires
        0 <= i <= s.len(),
    ensures
        i <= sp_body_lines_cont(s, i).1 <= s.len(),
    decreases s.len() - i,
{
    if let Some(d) = sp_line_leading(suffix(s, i)) {
        let j = i + d;
        if let Some(c) = sp_inline_tag_body_line(suffix(s, j)) {
            let k = j + c;
            if i < k <= s.len() {
                lemma_body_lines_cont_bounds(s, k);
            }
        }
    }
}

/// Bounds of an `inline_tag_body`.
pub proof fn lemma_inline_tag_body_bounds(s: Seq<char>)
    ensures
        match sp_inline_tag_body(s) {
            Some((lines, c)) => 1 <= c <= s.len() && lines.len() >= 1,
            None => true,
        },
{
    if let Some(c0) = sp_inline_tag_body_line(s) {
        lemma_line_bounds(s);
        lemma_body_lines_cont_bounds(s, c0);
    }
}

/// Bounds of an `inline_tag`.
pub proof fn lemma_inline_tag_bounds(s: Seq<char>)
    ensures
        match sp_inline_tag(s) {
            InlineTagScan::Done(_, c) => 1 <= c <= s.len(),
            InlineTagScan::ErrClose(p) => 0 <= p <= s.len(),
            _ => true,
        },
{
    if 1 <= s.len() && s[0] == '{' {
        let t = suffix(s, 1);
        lemma_tag_name_bounds(t);
        if let Some(ne) = sp_tag_name(t) {
            let p = 1 + ne;
            lemma_hspace_end(s, p);
            let q = hspace_end(s, p);
            lemma_inline_tag_body_bounds(suffix(s, q));
            let r0: int = match sp_inline_tag_body(suffix(s, q)) {
                Some((ls, c)) => q + c,
                None => p,
            };
            lemma_line_leading_bounds(suffix(s, r0));
        }
    }
}

/// Bounds of a `body_text_segment`.
pub proof fn lemma_body_text_segment_bounds(s: Seq<char>)
    ensures
        match sp_body_text_segment(s) {
            Some(c) => 1 <= c <= s.len(),
            None => true,
        },
{
    lemma_scan_text_bounds(s, 0, false);
    let j = sp_scan_text(s, 0, false);
    lemma_opt_line_ending_end(s, if j <= s.len() {
        j
    } else {
        0
    });
}

/// Progress of one body engine step.
pub proof fn lemma_body_step_bounds(s: Seq<char>, i: int)
    requires
        0 <= i <= s.len(),
    ensures
        match sp_body_step(s, i) {
            Some((_, j)) => i < j <= s.len(),
            None => true,
        },
{
    let t = suffix(s, i);
    lemma_line_leading_bounds(t);
    lemma_hspace_end(s, i);
    lemma_inline_tag_bounds(t);
    lemma_body_text_segment_bounds(t);
}

/// Bounds of the body engine.
pub proof fn lemma_body_items_bounds(s: Seq<char>, i: int)
    requires
        0 <= i <= s.len(),
    ensures
        i <= sp_body_items(s, i).1 <= s.len(),
        sp_body_step(s, i) is Some ==> sp_body_items(s, i).1 > i,
    decreases s.len() - i,
{
    lemma_body_step_bounds(s, i);
    if let Some((it, j)) = sp_body_step(s, i) {
        lemma_body_items_bounds(s, j);
    }
}

/// Bounds of a `body`.
pub proof fn lemma_body_bounds(s: Seq<char>)
    ensures
        match sp_body(s) {
            Some((items, c)) => 1 <= c <= s.len() && items.len() >= 1,
            None => true,
        },
{
    lemma_body_items_bounds(s, 0);
    if let Some((items, c)) = sp_body(s) {
        if items.len() == 0 {
            assert(!body_meaningful(items));
        }
    }
}

/// Bounds of a `block_tag`.
pub proof fn lemma_block_tag_bounds(s: Seq<char>)
    ensures
        match sp_block_tag(s) {
            Some((_, c)) => 2 <= c <= s.len(),
            None => true,
        },
{
    lemma_tag_name_bounds(s);
    if let Some(ne) = sp_tag_name(s) {
        lemma_hspace_end(s, ne);
        let p = hspace_end(s, ne);
        lemma_body_bounds(suffix(s, p));
    }
}

/// At any position, the body token set matches exactly where a body text
/// delimiter stands.
pub proof fn lemma_body_token_match(s: Seq<char>, p: int, esc: bool)
    requires
        0 <= p < s.len(),
    ensures
        token_match_at(body_tokens_model(), s, p, esc) == body_text_delimiter_at(s, p, esc),
{
    let tm = body_tokens_model();
    if body_text_delimiter_at(s, p, esc) {
        if !esc && s[p] == '{' {
            assert(tm[0].text =~= s.subrange(p, p + 1));
            assert(token_matches(tm, 0, s, p, esc));
        } else if !esc && s[p] == '}' {
            assert(tm[1].text =~= s.subrange(p, p + 1));
            assert(token_matches(tm, 1, s, p, esc));
        } else if !esc && s[p] == '@' {
            assert(tm[2].text =~= s.subrange(p, p + 1));
            assert(token_matches(tm, 2, s, p, esc));
        } else if s[p] == '\r' {
            assert(tm[3].text =~= s.subrange(p, p + 1));
            assert(token_matches(tm, 3, s, p, esc));
        } else if s[p] == '\n' {
            assert(tm[4].text =~= s.subrange(p, p + 1));
            assert(token_matches(tm, 4, s, p, esc));
        } else {
            assert(close_marker_at(s, p));
            assert(tm[5].text =~= s.subrange(p, p + 2));
            assert(token_matches(tm, 5, s, p, esc));
        }
    }
    if token_match_at(tm, s, p, esc) {
        let k = choose|k: int| 0 <= k < tm.len() && #[trigger] token_matches(tm, k, s, p, esc);
        if k <= 4 {
            assert(s[p] == tm[k].text[0]) by {
                assert(s.subrange(p, p + 1)[0] == s[p]);
            }
        } else {
            assert(s[p] == tm[5].text[0] && s[p + 1] == tm[5].text[1]) by {
                assert(s.subrange(p, p + 2)[0] == s[p]);
                assert(s.subrange(p, p + 2)[1] == s[p + 1]);
            }
        }
    }
}

/// At any position, the line token set matches exactly where a body line
/// delimiter stands.
pub proof fn lemma_line_token_match(s: Seq<char>, p: int, esc: bool)
    requires
        0 <= p < s.len(),
    ensures
        token_match_at(line_tokens_model(), s, p, esc) == line_delimiter_at(s, p, esc),
{
    let tm = line_tokens_model();
    if line_delimiter_at(s, p, esc) {
        if !esc && s[p] == '{' {
            assert(tm[0].text =~= s.subrange(p, p + 1));
            assert(token_matches(tm, 0, s, p, esc));
        } else if !esc && s[p] == '}' {
            assert(tm[1].text =~= s.subrange(p, p + 1));
            assert(token_matches(tm, 1, s, p, esc));
        } else if s[p] == '\r' {
            assert(tm[2].text =~= s.subrange(p, p + 1));
            assert(token_matches(tm, 2, s, p, esc));
        } else {
            assert(tm[3].text =~= s.subrange(p, p + 1));
            assert(token_matches(tm, 3, s, p, esc));
        }
    }
    if token_match_at(tm, s, p, esc) {
        let k = choose|k: int| 0 <= k < tm.len() && #[trigger] token_matches(tm, k, s, p, esc);
        assert(s[p] == tm[k].text[0]) by {
            assert(s.subrange(p, p + 1)[0] == s[p]);
        }
    }
}

/// The general scanner on the line token set is the body line scanner.
pub proof fn lemma_scan_line_eq(s: Seq<char>, i: int, esc: bool)
    requires
        0 <= i,
    ensures
        sp_scan(line_tokens_model(), s, i, esc) == sp_scan_line(s, i, esc),
    decreases s.len() - i,
{
    if i < s.len() {
        lemma_line_token_match(s, i, esc);
        if s[i] == '\\' && !esc {
            lemma_scan_line_eq(s, i + 1, true);
        } else if !line_delimiter_at(s, i, esc) {
            lemma_scan_line_eq(s, i + 1, false);
        }
    }
}

/// The general scanner on the body token set is the body text scanner.
pub proof fn lemma_scan_text_eq(s: Seq<char>, i: int, esc: bool)
    requires
        0 <= i,
    ensures
        sp_scan(body_tokens_model(), s, i, esc) == sp_scan_text(s, i, esc),
    decreases s.len() - i,
{
    if i < s.len() {
        lemma_body_token_match(s, i, esc);
        if s[i] == '\\' && !esc {
            lemma_scan_text_eq(s, i + 1, true);
        } else if !body_text_delimiter_at(s, i, esc) {
            lemma_scan_text_eq(s, i + 1, false);
        }
    }
}

/// Bounds of the block tag list.
pub proof fn lemma_tag_list_bounds(s: Seq<char>, i: int)
    requires
        0 <= i <= s.len(),
    ensures
        i <= sp_tag_list(s, i).1 <= s.len(),
    decreases s.len() - i,
{
    lemma_line_leading_bounds(suffix(s, i));
    let j = match sp_line_leading(suffix(s, i)) {
        Some(d) => i + d,
        None => i,
    };
    lemma_block_tag_bounds(suffix(s, j));
    if let Some((bt, c)) = sp_block_tag(suffix(s, j)) {
        let k = opt_line_ending_end(s, j + c);
        if i < k <= s.len() {
            lemma_tag_list_bounds(s, k);
        }
    }
}

} // verus!
