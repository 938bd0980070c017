//! The executable grammar rules.
//!
//! Each rule takes the remaining input and, on success, returns the rest of
//! the input after the consumed prefix together with the parsed value; on
//! failure it returns a trace and consumes nothing.  Every rule's contract
//! ties it exactly to the corresponding `spec` function in `grammar`.

use vstd::prelude::*;

use crate::ast::{BlockTag, BodyItem, Description, DocComment, InlineTag};
use crate::chars::{ascii_alpha_char, hspace_char, mspace_char, name_char, unicode_ws_char};
use crate::chars::{has_non_ws, is_unicode_ws};
use crate::grammar::{
    body_meaningful, body_tokens_model, close_marker_at, hspace_end, item_meaningful,
    line_tokens_model, mspace_end, name_end, opt_line_ending_end, sp_block_tag,
    sp_block_tag_trace, sp_body, sp_body_items, sp_body_lines_cont, sp_body_step,
    sp_body_text_segment, sp_body_text_segment_trace, sp_body_trace, sp_comment_end,
    sp_comment_end_trace, sp_comment_start, sp_comment_start_trace, sp_description,
    sp_description_trace, sp_doc_comment, sp_doc_comment_trace, sp_inline_tag, sp_inline_tag_body,
    sp_inline_tag_body_line, sp_inline_tag_body_line_trace, sp_inline_tag_body_trace,
    sp_inline_tag_trace, sp_line_leading, sp_line_leading_trace, sp_scan, sp_scan_line,
    sp_scan_text, sp_tag_list, sp_tag_name, sp_tag_name_trace, suffix, token_match_at,
    token_matches, DocScan, InlineTagScan, TokenModel,
};
use crate::grammar::{lemma_line_ending_shift, lemma_scan_line_eq, lemma_scan_text_eq};
use crate::grammar::{
    lemma_block_tag_bounds, lemma_body_bounds, lemma_body_items_bounds, lemma_body_step_bounds,
    lemma_body_text_segment_bounds, lemma_comment_end_bounds, lemma_comment_start_bounds,
    lemma_hspace_end, lemma_inline_tag_body_bounds, lemma_inline_tag_bounds, lemma_line_bounds,
    lemma_line_leading_bounds, lemma_mspace_end, lemma_name_end, lemma_scan_line_bounds,
    lemma_scan_text_bounds, lemma_suffix_subrange, lemma_suffix_suffix, lemma_tag_list_bounds,
    lemma_tag_name_bounds,
};
use crate::trace::{Rule, Trace, TraceKind};

verus! {

/// End of the run of horizontal whitespace starting at `from`.
fn hspace_span(i: &str, from: usize) -> (r: usize)
    requires
        from as int <= i@.len(),
    ensures
        r as int == hspace_end(i@, from as int),
        from <= r <= i@.len(),
{
    let n = i.unicode_len();
    let mut p = from;
    loop
        invariant
            from <= p <= n,
            n == i@.len(),
            from as int <= i@.len(),
            hspace_end(i@, from as int) == hspace_end(i@, p as int),
        ensures
            p as int == hspace_end(i@, from as int),
        decreases n - p,
    {
        if p >= n {
            break ;
        }
        if !hspace_char(i.get_char(p)) {
            break ;
        }
        p = p + 1;
    }
    proof {
        lemma_hspace_end(i@, from as int);
    }
    p
}

/// End of the run of whitespace (line breaks included) starting at `from`.
fn mspace_span(i: &str, from: usize) -> (r: usize)
    requires
        from as int <= i@.len(),
    ensures
        r as int == mspace_end(i@, from as int),
        from <= r <= i@.len(),
{
    let n = i.unicode_len();
    let mut p = from;
    loop
        invariant
            from <= p <= n,
            n == i@.len(),
            mspace_end(i@, from as int) == mspace_end(i@, p as int),
        ensures
            p as int == mspace_end(i@, from as int),
        decreases n - p,
    {
        if p >= n {
            break ;
        }
        if !mspace_char(i.get_char(p)) {
            break ;
        }
        p = p + 1;
    }
    proof {
        lemma_mspace_end(i@, from as int);
    }
    p
}

/// End of the run of tag-name characters starting at `from`.
fn name_span(i: &str, from: usize) -> (r: usize)
    requires
        from as int <= i@.len(),
    ensures
        r as int == name_end(i@, from as int),
        from <= r <= i@.len(),
{
    let n = i.unicode_len();
    let mut p = from;
    loop
        invariant
            from <= p <= n,
            n == i@.len(),
            name_end(i@, from as int) == name_end(i@, p as int),
        ensures
            p as int == name_end(i@, from as int),
        decreases n - p,
    {
        if p >= n {
            break ;
        }
        if !name_char(i.get_char(p)) {
            break ;
        }
        p = p + 1;
    }
    proof {
        lemma_name_end(i@, from as int);
    }
    p
}

/// Position after an optional line terminator at `p`.
fn opt_line_ending_at(i: &str, p: usize) -> (r: usize)
    requires
        p as int <= i@.len(),
    ensures
        r as int == opt_line_ending_end(i@, p as int),
        p <= r <= i@.len(),
{
    let n = i.unicode_len();
    if p < n && i.get_char(p) == '\n' {
        p + 1
    } else if p < n && i.get_char(p) == '\r' && p + 1 < n && i.get_char(p + 1) == '\n' {
        p + 2
    } else {
        p
    }
}

/// Whether the close marker `*/` stands at `p`.
fn close_marker_check(i: &str, p: usize) -> (r: bool)
    requires
        p as int <= i@.len(),
    ensures
        r == close_marker_at(i@, p as int),
{
    let n = i.unicode_len();
    p < n && i.get_char(p) == '*' && p + 1 < n && i.get_char(p + 1) == '/'
}

/// A delimiter token for `take_until_either`: a backslash immediately before
/// an `Escapable` token turns it off; a `NonEscapable` token always matches.
#[derive(Clone, Copy, Debug, Eq, PartialEq)]
pub enum Token<'t> {
    Escapable(&'t str),
    NonEscapable(&'t str),
}

impl<'t> View for Token<'t> {
    type V = TokenModel;

    open spec fn view(&self) -> TokenModel {
        match self {
            Token::Escapable(t) => TokenModel { text: t@, escapable: true },
            Token::NonEscapable(t) => TokenModel { text: t@, escapable: false },
        }
    }
}

/// The models of a token list.
pub open spec fn tokens_model(toks: Seq<Token>) -> Seq<TokenModel> {
    toks.map_values(|t: Token| t@)
}

/// Whether `t` is a prefix of `i` at character position `p`.
fn starts_at(i: &str, p: usize, t: &str) -> (r: bool)
    requires
        p as int <= i@.len(),
    ensures
        r == (p + t@.len() <= i@.len() && t@ == i@.subrange(
            p as int,
            p as int + t@.len() as int,
        )),
{
    let n = i.unicode_len();
    let m = t.unicode_len();
    if m > n - p {
        return false;
    }
    let mut k: usize = 0;
    loop
        invariant
            0 <= k <= m,
            m == t@.len(),
            n == i@.len(),
            p + m <= n,
            forall|j: int| 0 <= j < k ==> t@[j] == i@[p + j],
        ensures
            k <= m,
            m == t@.len(),
            n == i@.len(),
            if k < m {
                t@[k as int] != i@[p + k]
            } else {
                forall|j: int| 0 <= j < m ==> t@[j] == i@[p + j]
            },
        decreases m - k,
    {
        if k >= m {
            break ;
        }
        if t.get_char(k) != i.get_char(p + k) {
            break ;
        }
        k = k + 1;
    }
    if k == m {
        proof {
            assert(t@ =~= i@.subrange(p as int, p as int + t@.len() as int));
        }
        true
    } else {
        proof {
            assert(i@.subrange(p as int, p as int + t@.len() as int)[k as int] == i@[p + k]);
        }
        false
    }
}

/// Whether any token of the list matches at `p` under escaping state `esc`.
fn token_match_check(tokens: &[Token], i: &str, p: usize, esc: bool) -> (r: bool)
    requires
        p as int <= i@.len(),
    ensures
        r == token_match_at(tokens_model(tokens@), i@, p as int, esc),
{
    let ghost tm = tokens_model(tokens@);
    let len = tokens.len();
    let mut k: usize = 0;
    loop
        invariant
            0 <= k <= len,
            len == tokens@.len(),
            p as int <= i@.len(),
            tm == tokens_model(tokens@),
            forall|j: int| 0 <= j < k ==> !token_matches(tm, j, i@, p as int, esc),
        ensures
            k <= len,
            if k < len {
                token_matches(tm, k as int, i@, p as int, esc)
            } else {
                forall|j: int| 0 <= j < len ==> !token_matches(tm, j, i@, p as int, esc)
            },
        decreases len - k,
    {
        if k >= len {
            break ;
        }
        let tok = vstd::slice::slice_index_get(tokens, k);
        let matched = match tok {
            Token::Escapable(t) => !esc && starts_at(i, p, t),
            Token::NonEscapable(t) => starts_at(i, p, t),
        };
        if matched {
            break ;
        }
        k = k + 1;
    }
    if k < len {
        proof {
            assert(token_match_at(tm, i@, p as int, esc));
        }
        true
    } else {
        false
    }
}

/// The escaped delimiter scanner: returns the rest of the input from the
/// first position where one of the tokens matches (the token itself is not
/// consumed), and the prefix before it.  A backslash that is not itself
/// escaped disables an escapable token at the next position.  If no token
/// ever matches, the whole input is the prefix.  This scanner never fails.
pub fn take_until_either<'t, 'a>(tokens: &[Token<'t>], i: &'a str) -> (r: (&'a str, &'a str))
    ensures
        ({
            let j = sp_scan(tokens_model(tokens@), i@, 0, false);
            r.0@ == suffix(i@, j) && r.1@ == i@.subrange(0, j)
        }),
{
    let ghost tm = tokens_model(tokens@);
    let n = i.unicode_len();
    let mut p: usize = 0;
    let mut esc = false;
    loop
        invariant
            0 <= p <= n,
            n == i@.len(),
            tm == tokens_model(tokens@),
            sp_scan(tm, i@, 0, false) == sp_scan(tm, i@, p as int, esc),
        ensures
            p as int == sp_scan(tm, i@, 0, false),
        decreases n - p,
    {
        if p >= n {
            break ;
        }
        let c = i.get_char(p);
        if c == '\\' && !esc {
            esc = true;
            p = p + 1;
        } else if token_match_check(tokens, i, p, esc) {
            break ;
        } else {
            esc = false;
            p = p + 1;
        }
    }
    (i.substring_char(p, n), i.substring_char(0, p))
}

/// Consumes the comment's opening sequence: the `/**` marker, a run of
/// horizontal whitespace, and an optional line terminator.
pub fn comment_start<'a>(i: &'a str) -> (r: Result<(&'a str, ()), Trace<'a>>)
    ensures
        match r {
            Ok((rest, _)) => sp_comment_start(i@) matches Some(a) && rest@ == suffix(i@, a),
            Err(e) => sp_comment_start(i@) is None && e@ == sp_comment_start_trace(i@),
        },
{
    let n = i.unicode_len();
    if n >= 3 && i.get_char(0) == '/' && i.get_char(1) == '*' && i.get_char(2) == '*' {
        let a = hspace_span(i, 3);
        let b = opt_line_ending_at(i, a);
        Ok((i.substring_char(b, n), ()))
    } else {
        Err(Trace::two(i, TraceKind::Tag, i, Rule::CommentStart))
    }
}

/// Consumes the comment's closing sequence: a run of whitespace followed by
/// the `*/` marker.
pub fn comment_end<'a>(i: &'a str) -> (r: Result<(&'a str, ()), Trace<'a>>)
    ensures
        match r {
            Ok((rest, _)) => sp_comment_end(i@) matches Some(c) && rest@ == suffix(i@, c),
            Err(e) => sp_comment_end(i@) is None && e@ == sp_comment_end_trace(i@),
        },
{
    let n = i.unicode_len();
    let a = mspace_span(i, 0);
    if close_marker_check(i, a) {
        Ok((i.substring_char(a + 2, n), ()))
    } else {
        Err(Trace::two(i.substring_char(a, n), TraceKind::Tag, i, Rule::CommentEnd))
    }
}

/// Consumes one line's leading decoration: optional horizontal whitespace, a
/// `*` continuation marker that must not begin the close marker, and more
/// optional horizontal whitespace.  Returns the consumed prefix.
pub fn line_leading<'a>(i: &'a str) -> (r: Result<(&'a str, &'a str), Trace<'a>>)
    ensures
        match r {
            Ok((rest, v)) => sp_line_leading(i@) matches Some(d) && rest@ == suffix(i@, d) && v@
                == i@.subrange(0, d),
            Err(e) => sp_line_leading(i@) is None && e@ == sp_line_leading_trace(i@),
        },
{
    let n = i.unicode_len();
    let a = hspace_span(i, 0);
    if close_marker_check(i, a) {
        Err(Trace::two(i.substring_char(a, n), TraceKind::Not, i, Rule::LineLeading))
    } else if a < n && i.get_char(a) == '*' {
        let d = hspace_span(i, a + 1);
        Ok((i.substring_char(d, n), i.substring_char(0, d)))
    } else {
        Err(Trace::two(i.substring_char(a, n), TraceKind::Tag, i, Rule::LineLeading))
    }
}

/// Reports whether the text is empty or holds only whitespace, in which case
/// it cannot make a body meaningful.
pub fn is_empty_or_multispace(s: &str) -> (r: bool)
    ensures
        r == !has_non_ws(s@),
{
    let n = s.unicode_len();
    let mut k: usize = 0;
    loop
        invariant
            0 <= k <= n,
            n == s@.len(),
            forall|j: int| 0 <= j < k ==> is_unicode_ws(#[trigger] s@[j]),
        ensures
            k <= n,
            n == s@.len(),
            if k < n {
                !is_unicode_ws(s@[k as int])
            } else {
                forall|j: int| 0 <= j < n ==> is_unicode_ws(#[trigger] s@[j])
            },
        decreases n - k,
    {
        if k >= n {
            break ;
        }
        if !unicode_ws_char(s.get_char(k)) {
            break ;
        }
        k = k + 1;
    }
    if k < n {
        proof {
            assert(has_non_ws(s@)) by {
                assert(0 <= k < s@.len() && !is_unicode_ws(s@[k as int]));
            }
        }
        false
    } else {
        true
    }
}

/// Consumes one line of an inline tag's body: a bare line terminator, or a
/// non-empty scan up to the next unescaped brace or line break, followed by
/// an optional line terminator.  The scan never fails; the line fails only
/// when the scanned text is empty.
pub fn inline_tag_body_line<'a>(i: &'a str) -> (r: Result<(&'a str, &'a str), Trace<'a>>)
    ensures
        match r {
            Ok((rest, line)) => sp_inline_tag_body_line(i@) matches Some(c) && rest@ == suffix(
                i@,
                c,
            ) && line@ == i@.subrange(0, c),
            Err(e) => sp_inline_tag_body_line(i@) is None && e@ == sp_inline_tag_body_line_trace(
                i@,
            ),
        },
{
    let n = i.unicode_len();
    if n >= 1 && i.get_char(0) == '\n' {
        return Ok((i.substring_char(1, n), i.substring_char(0, 1)));
    }
    if n >= 2 && i.get_char(0) == '\r' && i.get_char(1) == '\n' {
        return Ok((i.substring_char(2, n), i.substring_char(0, 2)));
    }
    let toks = vec![
        Token::Escapable("{"),
        Token::Escapable("}"),
        Token::NonEscapable("\r"),
        Token::NonEscapable("\n"),
    ];
    proof {
        reveal_strlit("{");
        reveal_strlit("}");
        reveal_strlit("\r");
        reveal_strlit("\n");
        assert("{"@ =~= seq!['{']);
        assert("}"@ =~= seq!['}']);
        assert("\r"@ =~= seq!['\r']);
        assert("\n"@ =~= seq!['\n']);
        assert(tokens_model(toks@) =~= line_tokens_model());
        lemma_scan_line_eq(i@, 0, false);
        lemma_scan_line_bounds(i@, 0, false);
    }
    let (_, parsed) = take_until_either(toks.as_slice(), i);
    let j = parsed.unicode_len();
    proof {
        assert(j as int == sp_scan_line(i@, 0, false));
    }
    if j == 0 {
        Err(Trace::alt_three(i, TraceKind::NonEmpty, i, Rule::InlineTagBodyLine))
    } else {
        let c = opt_line_ending_at(i, j);
        Ok((i.substring_char(c, n), i.substring_char(0, c)))
    }
}

/// Consumes one text segment of a body: a bare line terminator, or a scan up
/// to the next delimiter followed by an optional line terminator, where the
/// scanned text must not be all whitespace.
pub fn body_text_segment<'a>(i: &'a str) -> (r: Result<(&'a str, &'a str), Trace<'a>>)
    ensures
        match r {
            Ok((rest, seg)) => sp_body_text_segment(i@) matches Some(c) && rest@ == suffix(i@, c)
                && seg@ == i@.subrange(0, c),
            Err(e) => sp_body_text_segment(i@) is None && e@ == sp_body_text_segment_trace(i@),
        },
{
    let n = i.unicode_len();
    if n >= 1 && i.get_char(0) == '\n' {
        return Ok((i.substring_char(1, n), i.substring_char(0, 1)));
    }
    if n >= 2 && i.get_char(0) == '\r' && i.get_char(1) == '\n' {
        return Ok((i.substring_char(2, n), i.substring_char(0, 2)));
    }
    let toks = vec![
        Token::Escapable("{"),
        Token::Escapable("}"),
        Token::Escapable("@"),
        Token::NonEscapable("\r"),
        Token::NonEscapable("\n"),
        Token::NonEscapable("*/"),
    ];
    proof {
        reveal_strlit("{");
        reveal_strlit("}");
        reveal_strlit("@");
        reveal_strlit("\r");
        reveal_strlit("\n");
        reveal_strlit("*/");
        assert("{"@ =~= seq!['{']);
        assert("}"@ =~= seq!['}']);
        assert("@"@ =~= seq!['@']);
        assert("\r"@ =~= seq!['\r']);
        assert("\n"@ =~= seq!['\n']);
        assert("*/"@ =~= seq!['*', '/']);
        assert(tokens_model(toks@) =~= body_tokens_model());
        lemma_scan_text_eq(i@, 0, false);
        lemma_scan_text_bounds(i@, 0, false);
    }
    let (_, parsed) = take_until_either(toks.as_slice(), i);
    let j = parsed.unicode_len();
    proof {
        assert(j as int == sp_scan_text(i@, 0, false));
    }
    if is_empty_or_multispace(parsed) {
        Err(Trace::alt_three(i, TraceKind::Verify, i, Rule::BodyTextSegment))
    } else {
        let c = opt_line_ending_at(i, j);
        Ok((i.substring_char(c, n), i.substring_char(0, c)))
    }
}

/// Consumes a tag name: `@`, an ASCII letter, then letters, digits and
/// underscores.  Returns the name without the `@`.
pub fn tag_name<'a>(i: &'a str) -> (r: Result<(&'a str, &'a str), Trace<'a>>)
    ensures
        match r {
            Ok((rest, name)) => sp_tag_name(i@) matches Some(ne) && rest@ == suffix(i@, ne)
                && name@ == i@.subrange(1, ne),
            Err(e) => sp_tag_name(i@) is None && e@ == sp_tag_name_trace(i@),
        },
{
    let n = i.unicode_len();
    if n >= 1 && i.get_char(0) == '@' {
        if n >= 2 && ascii_alpha_char(i.get_char(1)) {
            let ne = name_span(i, 2);
            Ok((i.substring_char(ne, n), i.substring_char(1, ne)))
        } else {
            Err(Trace::two(i.substring_char(1, n), TraceKind::Alpha, i, Rule::TagName))
        }
    } else {
        Err(Trace::two(i, TraceKind::Tag, i, Rule::TagName))
    }
}

/// Consumes an inline tag's body: one or more body lines separated by line
/// leadings.  A trailing separator with no line after it is left unconsumed.
pub fn inline_tag_body<'a>(i: &'a str) -> (r: Result<(&'a str, Vec<&'a str>), Trace<'a>>)
    ensures
        match r {
            Ok((rest, lines)) => sp_inline_tag_body(i@) matches Some((ls, c)) && rest@ == suffix(
                i@,
                c,
            ) && lines.deep_view() == ls,
            Err(e) => sp_inline_tag_body(i@) is None && e@ == sp_inline_tag_body_trace(i@),
        },
{
    match inline_tag_body_line(i) {
        Err(e) => Err(e.with_context(i, Rule::InlineTagBody)),
        Ok((rest0, line0)) => {
            let ghost c0 = sp_inline_tag_body_line(i@).unwrap();
            proof {
                lemma_line_bounds(i@);
            }
            let mut lines: Vec<&'a str> = Vec::new();
            lines.push(line0);
            let mut cur = rest0;
            let ghost mut p: int = c0;
            proof {
                assert(lines.deep_view() =~= seq![i@.subrange(0, c0)]);
            }
            loop
                invariant
                    0 <= p <= i@.len(),
                    cur@ == suffix(i@, p),
                    sp_inline_tag_body(i@) matches Some((tls, tend)) && tls == lines.deep_view()
                        + sp_body_lines_cont(i@, p).0 && tend == sp_body_lines_cont(i@, p).1,
                ensures
                    0 <= p <= i@.len(),
                    cur@ == suffix(i@, p),
                    sp_inline_tag_body(i@) matches Some((tls, tend)) && tls == lines.deep_view()
                        + sp_body_lines_cont(i@, p).0 && tend == sp_body_lines_cont(i@, p).1,
                    sp_body_lines_cont(i@, p).0 == Seq::<Seq<char>>::empty(),
                    sp_body_lines_cont(i@, p).1 == p,
                decreases i@.len() - p,
            {
                let r1 = match line_leading(cur) {
                    Err(_) => { break },
                    Ok((r1, _)) => r1,
                };
                let ghost d = sp_line_leading(cur@)->Some_0;
                proof {
                    lemma_line_leading_bounds(cur@);
                    lemma_suffix_suffix(i@, p, d);
                }
                let (r2, line) = match inline_tag_body_line(r1) {
                    Err(_) => { break },
                    Ok(x) => x,
                };
                let ghost c = sp_inline_tag_body_line(r1@).unwrap();
                let ghost old_dv = lines.deep_view();
                proof {
                    lemma_line_bounds(r1@);
                    lemma_suffix_suffix(i@, p + d, c);
                    lemma_suffix_subrange(i@, p + d, 0, c);
                }
                lines.push(line);
                proof {
                    assert(lines.deep_view() =~= old_dv + seq![line@]);
                    assert((old_dv + seq![line@]) + sp_body_lines_cont(i@, p + d + c).0 =~= old_dv
                        + (seq![line@] + sp_body_lines_cont(i@, p + d + c).0));
                    p = p + d + c;
                }
                cur = r2;
            }
            proof {
                assert(lines.deep_view() + Seq::<Seq<char>>::empty() =~= lines.deep_view());
            }
            Ok((cur, lines))
        },
    }
}

/// Consumes an inline tag: `{`, a tag name, an optional body (optionally
/// preceded by horizontal whitespace), an optional line leading, and `}`.
pub fn inline_tag<'a>(i: &'a str) -> (r: Result<(&'a str, InlineTag<'a>), Trace<'a>>)
    ensures
        match r {
            Ok((rest, tag)) => sp_inline_tag(i@) matches InlineTagScan::Done(m, c) && rest@
                == suffix(i@, c) && tag@ == m,
            Err(e) => !(sp_inline_tag(i@) is Done) && e@ == sp_inline_tag_trace(i@),
        },
{
    let n = i.unicode_len();
    if !(n >= 1 && i.get_char(0) == '{') {
        return Err(Trace::two(i, TraceKind::Char('{'), i, Rule::InlineTag));
    }
    let t1 = i.substring_char(1, n);
    match tag_name(t1) {
        Err(e) => Err(e.with_context(i, Rule::InlineTag)),
        Ok((rest_t, name)) => {
            let ghost ne = sp_tag_name(t1@).unwrap();
            proof {
                lemma_tag_name_bounds(t1@);
                lemma_suffix_subrange(i@, 1, 1, ne);
            }
            let p = n - rest_t.unicode_len();
            proof {
                assert(rest_t@.len() == t1@.len() - ne);
                assert(p as int == 1 + ne);
            }
            let q = hspace_span(i, p);
            let tb = i.substring_char(q, n);
            proof {
                lemma_suffix_suffix(i@, q as int, 0);
                assert(tb@ =~= suffix(i@, q as int));
            }
            let (r0, lines): (usize, Vec<&'a str>) = match inline_tag_body(tb) {
                Ok((rest_b, lines_vec)) => {
                    let ghost c = sp_inline_tag_body(tb@).unwrap().1;
                    proof {
                        lemma_inline_tag_body_bounds(tb@);
                        lemma_suffix_suffix(i@, q as int, c);
                        assert(rest_b@.len() == i@.len() - (q + c));
                    }
                    (n - rest_b.unicode_len(), lines_vec)
                },
                Err(_) => (p, Vec::new()),
            };
            let t2 = i.substring_char(r0, n);
            let r1 = match line_leading(t2) {
                Ok((r3, _)) => {
                    let ghost d = sp_line_leading(t2@).unwrap();
                    proof {
                        lemma_line_leading_bounds(t2@);
                        lemma_suffix_suffix(i@, r0 as int, d);
                        assert(r3@.len() == i@.len() - (r0 + d));
                    }
                    n - r3.unicode_len()
                },
                Err(_) => r0,
            };
            proof {
                if lines@.len() == 0 {
                    assert(lines.deep_view() =~= Seq::<Seq<char>>::empty());
                }
            }
            if r1 < n && i.get_char(r1) == '}' {
                Ok((i.substring_char(r1 + 1, n), InlineTag { name, body_lines: lines }))
            } else {
                Err(Trace::two(i.substring_char(r1, n), TraceKind::Char('}'), i, Rule::InlineTag))
            }
        },
    }
}

/// One step of the body engine at position `p` of `i`, where `cur` is the
/// remaining input there.  Tries, in order: a line leading (discarded), a
/// run of horizontal whitespace (discarded), an inline tag, a text segment.
fn body_step<'a>(i: &'a str, p: usize, cur: &'a str) -> (r: Option<
    (Option<BodyItem<'a>>, &'a str, usize),
>)
    requires
        p as int <= i@.len(),
        cur@ == suffix(i@, p as int),
    ensures
        match r {
            Some((it, rest, j)) => sp_body_step(i@, p as int) matches Some((sit, sj)) && sj
                == j as int && rest@ == suffix(i@, j as int) && p < j <= i@.len() && (match (
                it,
                sit,
            ) {
                (Some(x), Some(y)) => x@ == y,
                (None, None) => true,
                _ => false,
            }),
            None => sp_body_step(i@, p as int) is None,
        },
{
    proof {
        lemma_body_step_bounds(i@, p as int);
    }
    let n = i.unicode_len();
    match line_leading(cur) {
        Ok((r1, _)) => {
            let ghost d = sp_line_leading(cur@).unwrap();
            proof {
                lemma_line_leading_bounds(cur@);
                lemma_suffix_suffix(i@, p as int, d);
                assert(r1@.len() == i@.len() - (p + d));
            }
            let j = n - r1.unicode_len();
            return Some((None, r1, j));
        },
        Err(_) => {},
    }
    let m = cur.unicode_len();
    if m >= 1 && hspace_char(cur.get_char(0)) {
        proof {
            assert(cur@[0] == i@[p as int]);
        }
        let j = hspace_span(i, p);
        return Some((None, i.substring_char(j, n), j));
    }
    match inline_tag(cur) {
        Ok((r2, tag)) => {
            let ghost c = match sp_inline_tag(cur@) {
                InlineTagScan::Done(_, c) => c,
                _ => 0,
            };
            proof {
                lemma_inline_tag_bounds(cur@);
                lemma_suffix_suffix(i@, p as int, c);
                assert(r2@.len() == i@.len() - (p + c));
            }
            let j = n - r2.unicode_len();
            return Some((Some(BodyItem::InlineTag(tag)), r2, j));
        },
        Err(_) => {},
    }
    match body_text_segment(cur) {
        Ok((r3, seg)) => {
            let ghost c = sp_body_text_segment(cur@).unwrap();
            proof {
                lemma_body_text_segment_bounds(cur@);
                lemma_suffix_suffix(i@, p as int, c);
                lemma_suffix_subrange(i@, p as int, 0, c);
                assert(r3@.len() == i@.len() - (p + c));
            }
            let j = n - r3.unicode_len();
            Some((Some(BodyItem::TextSegment(seg)), r3, j))
        },
        Err(_) => None,
    }
}

/// Whether some accumulated item makes the body meaningful.
fn items_meaningful(items: &Vec<BodyItem>) -> (r: bool)
    ensures
        r == body_meaningful(items.deep_view()),
{
    let len = items.len();
    let mut k: usize = 0;
    loop
        invariant
            0 <= k <= len,
            len == items@.len(),
            forall|j: int| 0 <= j < k ==> !item_meaningful(#[trigger] items.deep_view()[j]),
        ensures
            k <= len,
            len == items@.len(),
            if k < len {
                item_meaningful(items.deep_view()[k as int])
            } else {
                forall|j: int| 0 <= j < len ==> !item_meaningful(#[trigger] items.deep_view()[j])
            },
        decreases len - k,
    {
        if k >= len {
            break ;
        }
        let found = match &items[k] {
            BodyItem::InlineTag(_) => true,
            BodyItem::TextSegment(s) => !is_empty_or_multispace(s),
        };
        proof {
            assert(items.deep_view()[k as int] == items@[k as int].deep_view());
        }
        if found {
            break ;
        }
        k = k + 1;
    }
    if k < len {
        proof {
            assert(body_meaningful(items.deep_view())) by {
                assert(0 <= k < items.deep_view().len() && item_meaningful(
                    items.deep_view()[k as int],
                ));
            }
        }
        true
    } else {
        false
    }
}

/// Consumes the body of a description or block tag: one or more engine
/// steps, accepted only if the accumulated items are meaningful.
pub fn body<'a>(i: &'a str) -> (r: Result<(&'a str, Vec<BodyItem<'a>>), Trace<'a>>)
    ensures
        match r {
            Ok((rest, items)) => sp_body(i@) matches Some((its, c)) && rest@ == suffix(i@, c)
                && items.deep_view() == its,
            Err(e) => sp_body(i@) is None && e@ == sp_body_trace(i@),
        },
{
    let n = i.unicode_len();
    proof {
        assert(i@ =~= suffix(i@, 0));
    }
    let mut items: Vec<BodyItem<'a>> = Vec::new();
    let (rest0, j0) = match body_step(i, 0, i) {
        None => {
            return Err(Trace::single(i, TraceKind::Many1));
        },
        Some((it0, rest0, j0)) => {
            proof {
                assert(items.deep_view() =~= Seq::<crate::ast::BodyItemModel>::empty());
            }
            if let Some(x) = it0 {
                let ghost old_dv = items.deep_view();
                items.push(x);
                proof {
                    assert(items.deep_view() =~= old_dv + seq![x@]);
                }
            }
            (rest0, j0)
        },
    };
    let mut cur = rest0;
    let mut p = j0;
    proof {
        lemma_body_items_bounds(i@, j0 as int);
        assert(sp_body_items(i@, 0).0 =~= items.deep_view() + sp_body_items(i@, p as int).0);
    }
    loop
        invariant
            0 <= p <= n,
            n == i@.len(),
            cur@ == suffix(i@, p as int),
            sp_body_step(i@, 0) is Some,
            sp_body_items(i@, 0).0 == items.deep_view() + sp_body_items(i@, p as int).0,
            sp_body_items(i@, 0).1 == sp_body_items(i@, p as int).1,
        ensures
            cur@ == suffix(i@, p as int),
            sp_body_step(i@, 0) is Some,
            sp_body_items(i@, 0).0 == items.deep_view(),
            sp_body_items(i@, 0).1 == p as int,
        decreases n - p,
    {
        match body_step(i, p, cur) {
            None => {
                proof {
                    assert(items.deep_view() + sp_body_items(i@, p as int).0 =~= items.deep_view());
                }
                break ;
            },
            Some((it, rest, j)) => {
                proof {
                    lemma_body_items_bounds(i@, j as int);
                }
                if let Some(x) = it {
                    let ghost old_dv = items.deep_view();
                    items.push(x);
                    proof {
                        assert(items.deep_view() =~= old_dv + seq![x@]);
                        assert((old_dv + seq![x@]) + sp_body_items(i@, j as int).0 =~= old_dv + (
                        seq![x@] + sp_body_items(i@, j as int).0));
                    }
                }
                cur = rest;
                p = j;
            },
        }
    }
    if items_meaningful(&items) {
        Ok((cur, items))
    } else {
        Err(Trace::single(i, TraceKind::Verify))
    }
}

/// Consumes a description: a meaningful body.
pub fn description<'a>(i: &'a str) -> (r: Result<(&'a str, Description<'a>), Trace<'a>>)
    ensures
        match r {
            Ok((rest, d)) => sp_description(i@) matches Some((dm, c)) && rest@ == suffix(i@, c)
                && d@ == dm,
            Err(e) => sp_description(i@) is None && e@ == sp_description_trace(i@),
        },
{
    match body(i) {
        Ok((rest, items)) => Ok((rest, Description { body_items: items })),
        Err(e) => Err(e.with_context(i, Rule::Description)),
    }
}

/// Consumes a block tag: a tag name, optional horizontal whitespace, and an
/// optional body.  A block tag with no meaningful body has no items.
pub fn block_tag<'a>(i: &'a str) -> (r: Result<(&'a str, BlockTag<'a>), Trace<'a>>)
    ensures
        match r {
            Ok((rest, bt)) => sp_block_tag(i@) matches Some((bm, c)) && rest@ == suffix(i@, c)
                && bt@ == bm,
            Err(e) => sp_block_tag(i@) is None && e@ == sp_block_tag_trace(i@),
        },
{
    let n = i.unicode_len();
    match tag_name(i) {
        Err(e) => Err(e.with_context(i, Rule::BlockTag)),
        Ok((rest_t, name)) => {
            let ghost ne = sp_tag_name(i@).unwrap();
            proof {
                lemma_tag_name_bounds(i@);
                assert(rest_t@.len() == i@.len() - ne);
            }
            let p0 = n - rest_t.unicode_len();
            let p = hspace_span(i, p0);
            let tb = i.substring_char(p, n);
            match body(tb) {
                Ok((rest_b, items)) => {
                    let ghost c = sp_body(tb@).unwrap().1;
                    proof {
                        lemma_body_bounds(tb@);
                        lemma_suffix_suffix(i@, p as int, c);
                    }
                    Ok((rest_b, BlockTag { name, body_items: items }))
                },
                Err(_) => {
                    let items: Vec<BodyItem<'a>> = Vec::new();
                    proof {
                        assert(items.deep_view() =~= Seq::<crate::ast::BodyItemModel>::empty());
                    }
                    Ok((tb, BlockTag { name, body_items: items }))
                },
            }
        },
    }
}

/// Consumes an entire doc comment: the opening sequence, an optional line
/// leading, an optional description, the block tags, and the closing
/// sequence, which must end the input exactly.
#[verifier::rlimit(60)]
pub fn doc_comment<'a>(i: &'a str) -> (r: Result<(&'a str, DocComment<'a>), Trace<'a>>)
    ensures
        match r {
            Ok((rest, doc)) => sp_doc_comment(i@) matches DocScan::Done(m) && doc@ == m
                && rest@.len() == 0,
            Err(e) => !(sp_doc_comment(i@) is Done) && e@ == sp_doc_comment_trace(i@),
        },
{
    let n = i.unicode_len();
    let cur1 = match comment_start(i) {
        Err(e) => {
            return Err(e.with_context(i, Rule::DocComment));
        },
        Ok((r1, _)) => r1,
    };
    let ghost a = sp_comment_start(i@).unwrap();
    proof {
        lemma_comment_start_bounds(i@);
        assert(cur1@.len() == i@.len() - a);
    }
    let pa = n - cur1.unicode_len();
    let (cur2, pb) = match line_leading(cur1) {
        Ok((r2, _)) => {
            let ghost d = sp_line_leading(cur1@).unwrap();
            proof {
                lemma_line_leading_bounds(cur1@);
                lemma_suffix_suffix(i@, a, d);
                assert(r2@.len() == i@.len() - (a + d));
            }
            (r2, n - r2.unicode_len())
        },
        Err(_) => (cur1, pa),
    };
    let (desc, cur3, pd): (Option<Description<'a>>, &'a str, usize) = match description(cur2) {
        Ok((r3, dd)) => {
            let ghost c = sp_description(cur2@).unwrap().1;
            proof {
                lemma_body_bounds(cur2@);
                lemma_suffix_suffix(i@, pb as int, c);
                assert(r3@.len() == i@.len() - (pb + c));
            }
            (Some(dd), r3, n - r3.unicode_len())
        },
        Err(_) => (None, cur2, pb),
    };
    let mut tags: Vec<BlockTag<'a>> = Vec::new();
    let mut cur = cur3;
    let mut p = pd;
    proof {
        lemma_tag_list_bounds(i@, pd as int);
        assert(tags.deep_view() =~= Seq::<crate::ast::BlockTagModel>::empty());
        assert(sp_tag_list(i@, pd as int).0 =~= tags.deep_view() + sp_tag_list(i@, pd as int).0);
    }
    loop
        invariant
            0 <= p <= n,
            n == i@.len(),
            pd <= n,
            cur@ == suffix(i@, p as int),
            sp_tag_list(i@, pd as int).0 == tags.deep_view() + sp_tag_list(i@, p as int).0,
            sp_tag_list(i@, pd as int).1 == sp_tag_list(i@, p as int).1,
        ensures
            0 <= p <= n,
            n == i@.len(),
            cur@ == suffix(i@, p as int),
            sp_tag_list(i@, pd as int).0 == tags.deep_view(),
            sp_tag_list(i@, pd as int).1 == p as int,
        decreases n - p,
    {
        let (after_ll, j) = match line_leading(cur) {
            Ok((r, _)) => {
                let ghost d = sp_line_leading(cur@).unwrap();
                proof {
                    lemma_line_leading_bounds(cur@);
                    lemma_suffix_suffix(i@, p as int, d);
                    assert(r@.len() == i@.len() - (p + d));
                }
                let j = n - r.unicode_len();
                (r, j)
            },
            Err(_) => (cur, p),
        };
        match block_tag(after_ll) {
            Err(_) => {
                proof {
                    assert(tags.deep_view() + sp_tag_list(i@, p as int).0 =~= tags.deep_view());
                }
                break ;
            },
            Ok((r2, bt)) => {
                let ghost c = sp_block_tag(after_ll@).unwrap().1;
                proof {
                    lemma_block_tag_bounds(after_ll@);
                    lemma_suffix_suffix(i@, j as int, c);
                    assert(r2@.len() == i@.len() - (j + c));
                }
                let k0 = n - r2.unicode_len();
                let e = opt_line_ending_at(r2, 0);
                proof {
                    lemma_line_ending_shift(i@, k0 as int);
                }
                let k = k0 + e;
                let m2 = r2.unicode_len();
                let rest2 = r2.substring_char(e, m2);
                proof {
                    lemma_suffix_suffix(i@, k0 as int, e as int);
                    lemma_tag_list_bounds(i@, k as int);
                }
                let ghost old_dv = tags.deep_view();
                tags.push(bt);
                proof {
                    assert(tags.deep_view() =~= old_dv + seq![bt@]);
                    assert((old_dv + seq![bt@]) + sp_tag_list(i@, k as int).0 =~= old_dv + (
                    seq![bt@] + sp_tag_list(i@, k as int).0));
                }
                cur = rest2;
                p = k;
            },
        }
    }
    let cur4 = match comment_end(cur) {
        Err(e) => {
            return Err(e.with_context(i, Rule::DocComment));
        },
        Ok((r4, _)) => r4,
    };
    let ghost c2 = sp_comment_end(cur@).unwrap();
    proof {
        lemma_comment_end_bounds(cur@);
        lemma_suffix_suffix(i@, p as int, c2);
        assert(cur4@.len() == i@.len() - (p + c2));
    }
    if cur4.unicode_len() == 0 {
        Ok((cur4, DocComment { description: desc, block_tags: tags }))
    } else {
        Err(Trace::two(cur4, TraceKind::Eof, i, Rule::DocComment))
    }
}

} // verus!
