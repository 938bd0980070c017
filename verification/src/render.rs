//! The error-context renderer.
//!
//! A failure trace is turned into a human-readable diagnostic: one stage per
//! trace entry, innermost first, each showing the line of the input that the
//! failure points into, a caret under the failing column, and the name of the
//! expectation or enclosing rule.  The exact text is pinned by `render_trace`.

use vstd::prelude::*;

use crate::chars::{is_unicode_ws, unicode_ws_char};
use crate::trace::{Rule, Trace, TraceKind};

verus! {

/// The decimal digit for one value below ten.
pub open spec fn digit_char(d: nat) -> char {
    if d == 0 {
        '0'
    } else if d == 1 {
        '1'
    } else if d == 2 {
        '2'
    } else if d == 3 {
        '3'
    } else if d == 4 {
        '4'
    } else if d == 5 {
        '5'
    } else if d == 6 {
        '6'
    } else if d == 7 {
        '7'
    } else if d == 8 {
        '8'
    } else {
        '9'
    }
}

/// The decimal representation of a number, most significant digit first.
pub open spec fn decimal_rep(n: nat) -> Seq<char>
    decreases n,
{
    if n < 10 {
        seq![digit_char(n)]
    } else {
        decimal_rep(n / 10) + seq![digit_char(n % 10)]
    }
}

/// The name a rule carries in a diagnostic.
pub open spec fn rule_name(r: Rule) -> Seq<char> {
    match r {
        Rule::CommentStart => "comment_start"@,
        Rule::CommentEnd => "comment_end"@,
        Rule::LineLeading => "line_leading"@,
        Rule::TagName => "tag_name"@,
        Rule::InlineTagBodyLine => "inline_tag_body_line"@,
        Rule::InlineTagBody => "inline_tag_body"@,
        Rule::InlineTag => "inline_tag"@,
        Rule::BodyTextSegment => "body_text_segment"@,
        Rule::Description => "description"@,
        Rule::BlockTag => "block_tag"@,
        Rule::DocComment => "doc_comment"@,
    }
}

/// The name a trace kind carries in a diagnostic.
pub open spec fn kind_name(k: TraceKind) -> Seq<char> {
    match k {
        TraceKind::Tag => "Tag"@,
        TraceKind::Not => "Not"@,
        TraceKind::Alpha => "Alpha"@,
        TraceKind::NonEmpty => "NonEmpty"@,
        TraceKind::Verify => "Verify"@,
        TraceKind::Alt => "Alt"@,
        TraceKind::Many1 => "Many1"@,
        TraceKind::Eof => "Eof"@,
        TraceKind::Char(_) => "Char"@,
        TraceKind::Context(r) => rule_name(r),
    }
}

/// How many line feeds stand in `s[0 .. i]`.
pub open spec fn count_newlines(s: Seq<char>, i: int) -> int
    decreases i,
{
    if i <= 0 {
        0
    } else {
        count_newlines(s, i - 1) + if 0 <= i - 1 < s.len() && s[i - 1] == '\n' {
            1int
        } else {
            0int
        }
    }
}

/// The index just after the last line feed before `off`, or zero.
pub open spec fn line_begin(s: Seq<char>, off: int) -> int
    decreases off,
{
    if off <= 0 {
        0
    } else if off - 1 < s.len() && s[off - 1] == '\n' {
        off
    } else {
        line_begin(s, off - 1)
    }
}

/// The index of the first line feed at or after `b`, or the end.
pub open spec fn line_end(s: Seq<char>, b: int) -> int
    decreases s.len() - b,
{
    if !(0 <= b < s.len()) {
        s.len() as int
    } else if s[b] == '\n' {
        b
    } else {
        line_end(s, b + 1)
    }
}

/// The end of `s[b .. e]` once trailing whitespace is trimmed.
pub open spec fn trim_end_idx(s: Seq<char>, b: int, e: int) -> int
    decreases e,
{
    if e <= b {
        b
    } else if 0 <= e - 1 < s.len() && is_unicode_ws(s[e - 1]) {
        trim_end_idx(s, b, e - 1)
    } else {
        e
    }
}

/// A run of spaces.
pub open spec fn spaces(n: int) -> Seq<char>
    decreases n,
{
    if n <= 0 {
        Seq::empty()
    } else {
        spaces(n - 1) + seq![' ']
    }
}

/// The caret line: the caret right-aligned in a field of `col` characters.
pub open spec fn caret_line(col: int) -> Seq<char> {
    spaces(col - 1) + seq!['^']
}

/// The stage number and line number that open a stage.
pub open spec fn entry_head(idx: nat, ln: nat) -> Seq<char> {
    decimal_rep(idx) + ": at line "@ + decimal_rep(ln)
}

/// One rendered stage of the diagnostic: the stage number, the line and
/// column of the failure, the failing line with a caret under the column,
/// and what was expected there.  On empty input only the expectation is
/// named.
pub open spec fn render_entry(input: Seq<char>, idx: nat, ent: (Seq<char>, TraceKind)) -> Seq<
    char,
> {
    if input.len() == 0 {
        match ent.1 {
            TraceKind::Char(c) => decimal_rep(idx) + ": expected '"@ + seq![c]
                + "', got empty input\n\n"@,
            _ => decimal_rep(idx) + ": in "@ + kind_name(ent.1) + ", got empty input\n\n"@,
        }
    } else {
        let off = input.len() - ent.0.len();
        let ln = (count_newlines(input, off) + 1) as nat;
        let b = line_begin(input, off);
        let line = input.subrange(b, trim_end_idx(input, b, line_end(input, b)));
        let col = off - b + 1;
        match ent.1 {
            TraceKind::Char(c) => entry_head(idx, ln) + ":\n"@ + line + seq!['\n'] + caret_line(
                col,
            ) + seq!['\n'] + (if ent.0.len() > 0 {
                "expected '"@ + seq![c] + "', found "@ + seq![ent.0[0]] + "\n\n"@
            } else {
                "expected '"@ + seq![c] + "', got end of input\n\n"@
            }),
            TraceKind::Context(r) => entry_head(idx, ln) + ", in "@ + rule_name(r) + ":\n"@ + line
                + seq!['\n'] + caret_line(col) + "\n\n"@,
            _ => entry_head(idx, ln) + ", in "@ + kind_name(ent.1) + ":\n"@ + line + seq!['\n']
                + caret_line(col) + "\n\n"@,
        }
    }
}

/// The stages from `idx` on, concatenated.
pub open spec fn render_from(
    input: Seq<char>,
    entries: Seq<(Seq<char>, TraceKind)>,
    idx: nat,
) -> Seq<char>
    decreases entries.len() - idx,
{
    if idx >= entries.len() {
        Seq::empty()
    } else {
        render_entry(input, idx, entries[idx as int]) + render_from(input, entries, idx + 1)
    }
}

/// The whole diagnostic for a trace over the given input.
pub open spec fn render_trace(input: Seq<char>, entries: Seq<(Seq<char>, TraceKind)>) -> Seq<
    char,
> {
    render_from(input, entries, 0)
}

/// Bounds of the newline count.
pub proof fn lemma_count_newlines(s: Seq<char>, i: int)
    requires
        0 <= i,
    ensures
        0 <= count_newlines(s, i) <= i,
    decreases i,
{
    if i > 0 {
        lemma_count_newlines(s, i - 1);
    }
}

/// Bounds of the line start.
pub proof fn lemma_line_begin(s: Seq<char>, off: int)
    requires
        0 <= off,
    ensures
        0 <= line_begin(s, off) <= off,
    decreases off,
{
    if off > 0 && !(off - 1 < s.len() && s[off - 1] == '\n') {
        lemma_line_begin(s, off - 1);
    }
}

/// Bounds of the line end.
pub proof fn lemma_line_end(s: Seq<char>, b: int)
    requires
        0 <= b <= s.len(),
    ensures
        b <= line_end(s, b) <= s.len(),
    decreases s.len() - b,
{
    if b < s.len() && s[b] != '\n' {
        lemma_line_end(s, b + 1);
    }
}

/// Bounds of the trimmed end.
pub proof fn lemma_trim_end_idx(s: Seq<char>, b: int, e: int)
    requires
        0 <= b <= e,
    ensures
        b <= trim_end_idx(s, b, e) <= e,
    decreases e,
{
    if e > b && 0 <= e - 1 < s.len() && is_unicode_ws(s[e - 1]) {
        lemma_trim_end_idx(s, b, e - 1);
    }
}

/// Relies on `String::push`: it appends exactly the one character.
#[verifier::external_body]
fn push_char(out: &mut String, c: char)
    ensures
        final(out)@ == old(out)@ + seq![c],
{
    out.push(c);
}

/// The literal digit below ten.
fn digit_str(d: usize) -> (r: &'static str)
    requires
        d < 10,
    ensures
        r@ == seq![digit_char(d as nat)],
{
    let r: &'static str = if d == 0 {
        "0"
    } else if d == 1 {
        "1"
    } else if d == 2 {
        "2"
    } else if d == 3 {
        "3"
    } else if d == 4 {
        "4"
    } else if d == 5 {
        "5"
    } else if d == 6 {
        "6"
    } else if d == 7 {
        "7"
    } else if d == 8 {
        "8"
    } else {
        "9"
    };
    proof {
        reveal_strlit("0");
        reveal_strlit("1");
        reveal_strlit("2");
        reveal_strlit("3");
        reveal_strlit("4");
        reveal_strlit("5");
        reveal_strlit("6");
        reveal_strlit("7");
        reveal_strlit("8");
        reveal_strlit("9");
        assert(r@ =~= seq![digit_char(d as nat)]);
    }
    r
}

/// Appends the decimal representation of `n`.
fn push_decimal(out: &mut String, n: u128)
    ensures
        final(out)@ == old(out)@ + decimal_rep(n as nat),
    decreases n,
{
    if n < 10 {
        out.append(digit_str(n as usize));
    } else {
        let ghost before = out@;
        push_decimal(out, n / 10);
        out.append(digit_str((n % 10) as usize));
        proof {
            assert(out@ =~= before + decimal_rep(n as nat));
        }
    }
}

/// Appends a run of spaces.
fn push_spaces(out: &mut String, m: usize)
    ensures
        final(out)@ == old(out)@ + spaces(m as int),
{
    let ghost before = out@;
    let mut k: usize = 0;
    loop
        invariant
            0 <= k <= m,
            out@ == before + spaces(k as int),
        ensures
            out@ == before + spaces(m as int),
        decreases m - k,
    {
        if k >= m {
            break ;
        }
        out.append(" ");
        proof {
            reveal_strlit(" ");
            assert(" "@ =~= seq![' ']);
            assert((before + spaces(k as int)) + seq![' '] =~= before + spaces(k + 1));
        }
        k = k + 1;
    }
}

/// The rule's diagnostic name.
fn rule_name_str(r: Rule) -> (s: &'static str)
    ensures
        s@ == rule_name(r),
{
    match r {
        Rule::CommentStart => "comment_start",
        Rule::CommentEnd => "comment_end",
        Rule::LineLeading => "line_leading",
        Rule::TagName => "tag_name",
        Rule::InlineTagBodyLine => "inline_tag_body_line",
        Rule::InlineTagBody => "inline_tag_body",
        Rule::InlineTag => "inline_tag",
        Rule::BodyTextSegment => "body_text_segment",
        Rule::Description => "description",
        Rule::BlockTag => "block_tag",
        Rule::DocComment => "doc_comment",
    }
}

/// The kind's diagnostic name.
fn kind_name_str(k: TraceKind) -> (s: &'static str)
    ensures
        s@ == kind_name(k),
{
    match k {
        TraceKind::Tag => "Tag",
        TraceKind::Not => "Not",
        TraceKind::Alpha => "Alpha",
        TraceKind::NonEmpty => "NonEmpty",
        TraceKind::Verify => "Verify",
        TraceKind::Alt => "Alt",
        TraceKind::Many1 => "Many1",
        TraceKind::Eof => "Eof",
        TraceKind::Char(_) => "Char",
        TraceKind::Context(r) => rule_name_str(r),
    }
}

/// The index just after the last line feed before `off`, or zero.
fn line_begin_at(i: &str, off: usize) -> (r: usize)
    requires
        off as int <= i@.len(),
    ensures
        r as int == line_begin(i@, off as int),
        r <= off,
{
    proof {
        lemma_line_begin(i@, off as int);
    }
    let mut b = off;
    loop
        invariant
            0 <= b <= off,
            off as int <= i@.len(),
            line_begin(i@, off as int) == line_begin(i@, b as int),
        ensures
            b as int == line_begin(i@, off as int),
        decreases b,
    {
        if b == 0 {
            break ;
        }
        if i.get_char(b - 1) == '\n' {
            break ;
        }
        b = b - 1;
    }
    b
}

/// The index of the first line feed at or after `b`, or the end.
fn line_end_at(i: &str, b: usize) -> (r: usize)
    requires
        b as int <= i@.len(),
    ensures
        r as int == line_end(i@, b as int),
        b <= r <= i@.len(),
{
    proof {
        lemma_line_end(i@, b as int);
    }
    let n = i.unicode_len();
    let mut e = b;
    loop
        invariant
            b <= e <= n,
            n == i@.len(),
            line_end(i@, b as int) == line_end(i@, e as int),
        ensures
            e as int == line_end(i@, b as int),
        decreases n - e,
    {
        if e >= n {
            break ;
        }
        if i.get_char(e) == '\n' {
            break ;
        }
        e = e + 1;
    }
    e
}

/// The end of `i[b .. e]` once trailing whitespace is trimmed.
fn trim_end_at(i: &str, b: usize, e: usize) -> (r: usize)
    requires
        b <= e,
        e as int <= i@.len(),
    ensures
        r as int == trim_end_idx(i@, b as int, e as int),
        b <= r <= e,
{
    proof {
        lemma_trim_end_idx(i@, b as int, e as int);
    }
    let mut t = e;
    loop
        invariant
            b <= t <= e,
            e as int <= i@.len(),
            trim_end_idx(i@, b as int, e as int) == trim_end_idx(i@, b as int, t as int),
        ensures
            t as int == trim_end_idx(i@, b as int, e as int),
        decreases t,
    {
        if t == b {
            break ;
        }
        if !unicode_ws_char(i.get_char(t - 1)) {
            break ;
        }
        t = t - 1;
    }
    t
}

/// How many line feeds stand before `to`.
fn count_newlines_to(i: &str, to: usize) -> (r: usize)
    requires
        to as int <= i@.len(),
    ensures
        r as int == count_newlines(i@, to as int),
        r <= to,
{
    proof {
        lemma_count_newlines(i@, to as int);
    }
    let mut c: usize = 0;
    let mut k: usize = 0;
    loop
        invariant
            0 <= k <= to,
            to as int <= i@.len(),
            c as int == count_newlines(i@, k as int),
            c <= k,
        ensures
            c as int == count_newlines(i@, to as int),
            c <= to,
        decreases to - k,
    {
        if k >= to {
            break ;
        }
        if i.get_char(k) == '\n' {
            c = c + 1;
        }
        k = k + 1;
    }
    c
}

/// Appends one rendered stage for an empty input.
fn push_entry_empty(out: &mut String, input: &str, idx: usize, fail: &str, kind: TraceKind)
    requires
        input@.len() == 0,
    ensures
        final(out)@ == old(out)@ + render_entry(input@, idx as nat, (fail@, kind)),
{
    let ghost before = out@;
    match kind {
        TraceKind::Char(c) => {
            push_decimal(out, idx as u128);
            out.append(": expected '");
            push_char(out, c);
            out.append("', got empty input\n\n");
        },
        _ => {
            push_decimal(out, idx as u128);
            out.append(": in ");
            out.append(kind_name_str(kind));
            out.append(", got empty input\n\n");
        },
    }
    proof {
        assert(out@ =~= before + render_entry(input@, idx as nat, (fail@, kind)));
    }
}

/// Appends one rendered stage that names a failed token class or rule.
#[verifier::rlimit(60)]
fn push_entry_named(out: &mut String, input: &str, idx: usize, fail: &str, kind: TraceKind)
    requires
        fail@.len() <= input@.len(),
        input@.len() > 0,
        !(kind is Char),
    ensures
        final(out)@ == old(out)@ + render_entry(input@, idx as nat, (fail@, kind)),
{
    let ghost before = out@;
    let n = input.unicode_len();
    let fl = fail.unicode_len();
    let off = n - fl;
    let nl = count_newlines_to(input, off);
    let b = line_begin_at(input, off);
    let le = line_end_at(input, b);
    let t = trim_end_at(input, b, le);
    let pad = off - b;
    push_decimal(out, idx as u128);
    out.append(": at line ");
    push_decimal(out, nl as u128 + 1);
    out.append(", in ");
    out.append(kind_name_str(kind));
    out.append(":\n");
    out.append(input.substring_char(b, t));
    out.append("\n");
    push_spaces(out, pad);
    out.append("^");
    out.append("\n\n");
    proof {
        reveal_strlit("\n");
        reveal_strlit("^");
        assert("\n"@ =~= seq!['\n']);
        assert("^"@ =~= seq!['^']);
        assert(out@ =~= before + render_entry(input@, idx as nat, (fail@, kind)));
    }
}

/// Appends one rendered stage for a missing expected character.
#[verifier::rlimit(100)]
fn push_entry_char(out: &mut String, input: &str, idx: usize, fail: &str, c: char)
    requires
        fail@.len() <= input@.len(),
        input@.len() > 0,
    ensures
        final(out)@ == old(out)@ + render_entry(input@, idx as nat, (fail@, TraceKind::Char(c))),
{
    let ghost before = out@;
    let n = input.unicode_len();
    let fl = fail.unicode_len();
    let off = n - fl;
    let nl = count_newlines_to(input, off);
    let b = line_begin_at(input, off);
    let le = line_end_at(input, b);
    let t = trim_end_at(input, b, le);
    let pad = off - b;
    push_decimal(out, idx as u128);
    out.append(": at line ");
    push_decimal(out, nl as u128 + 1);
    out.append(":\n");
    out.append(input.substring_char(b, t));
    out.append("\n");
    push_spaces(out, pad);
    out.append("^");
    out.append("\n");
    out.append("expected '");
    push_char(out, c);
    if fl > 0 {
        out.append("', found ");
        push_char(out, fail.get_char(0));
        out.append("\n\n");
    } else {
        out.append("', got end of input\n\n");
    }
    proof {
        reveal_strlit("\n");
        reveal_strlit("^");
        assert("\n"@ =~= seq!['\n']);
        assert("^"@ =~= seq!['^']);
        assert(out@ =~= before + render_entry(input@, idx as nat, (fail@, TraceKind::Char(c))));
    }
}

/// Appends one rendered stage.
fn render_entry_into(out: &mut String, input: &str, idx: usize, fail: &str, kind: TraceKind)
    requires
        fail@.len() <= input@.len(),
    ensures
        final(out)@ == old(out)@ + render_entry(input@, idx as nat, (fail@, kind)),
{
    let n = input.unicode_len();
    if n == 0 {
        push_entry_empty(out, input, idx, fail, kind);
    } else {
        match kind {
            TraceKind::Char(c) => push_entry_char(out, input, idx, fail, c),
            _ => push_entry_named(out, input, idx, fail, kind),
        }
    }
}

/// Renders a whole failure trace into its diagnostic.  Every entry must hold
/// a suffix of (or at most as much text as) the original input.
pub fn render(input: &str, tr: &Trace) -> (r: String)
    requires
        forall|j: int| 0 <= j < tr@.len() ==> (#[trigger] tr@[j]).0.len() <= input@.len(),
    ensures
        r@ == render_trace(input@, tr@),
{
    let mut out = String::new();
    let len = tr.errors.len();
    let mut idx: usize = 0;
    loop
        invariant
            0 <= idx <= len,
            len == tr@.len(),
            len == tr.errors@.len(),
            forall|j: int| 0 <= j < tr@.len() ==> (#[trigger] tr@[j]).0.len() <= input@.len(),
            out@ + render_from(input@, tr@, idx as nat) == render_trace(input@, tr@),
        ensures
            out@ == render_trace(input@, tr@),
        decreases len - idx,
    {
        if idx >= len {
            proof {
                assert(out@ + render_from(input@, tr@, idx as nat) =~= out@);
            }
            break ;
        }
        let e = tr.errors[idx];
        proof {
            assert(tr@[idx as int] == (e.0@, e.1));
        }
        let ghost before = out@;
        render_entry_into(&mut out, input, idx, e.0, e.1);
        proof {
            assert((before + render_entry(input@, idx as nat, (e.0@, e.1))) + render_from(
                input@,
                tr@,
                (idx + 1) as nat,
            ) =~= before + (render_entry(input@, idx as nat, (e.0@, e.1)) + render_from(
                input@,
                tr@,
                (idx + 1) as nat,
            )));
        }
        idx = idx + 1;
    }
    out
}

} // verus!
