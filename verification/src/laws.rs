//! Laws of the grammar: what holds of every comment the parser accepts, and
//! how backslash escaping decides where the text scanner stops.

use vstd::prelude::*;

use crate::ast::{BlockTagModel, BodyItemModel, DocCommentModel};
use crate::chars::{has_non_ws, is_unicode_ws};
use crate::grammar::{
    body_meaningful, body_text_delimiter_at, line_ending_len, opt_line_ending_end, sp_block_tag,
    sp_body, sp_body_items, sp_body_step, sp_body_text_segment, sp_comment_start, sp_description,
    sp_line_leading, sp_parse, sp_scan_text, sp_tag_list, sp_tag_name, suffix,
};
use crate::grammar::{
    lemma_body_bounds, lemma_body_step_bounds, lemma_body_text_segment_bounds,
    lemma_comment_start_bounds, lemma_line_leading_bounds, lemma_scan_text_bounds,
    lemma_suffix_subrange, lemma_tag_list_bounds,
};

verus! {

/// The number of consecutive backslashes standing immediately before `j`.
pub open spec fn backslash_run(s: Seq<char>, j: int) -> int
    decreases j,
{
    if j <= 0 || j - 1 >= s.len() {
        0
    } else if s[j - 1] == '\\' {
        backslash_run(s, j - 1) + 1
    } else {
        0
    }
}

proof fn lemma_parity_aux(s: Seq<char>, i: int, esc: bool, j: int)
    requires
        0 <= i <= j < s.len(),
        s[j] == '{' || s[j] == '}' || s[j] == '@',
        sp_scan_text(s, i, esc) >= j,
        esc == (backslash_run(s, i) % 2 == 1),
    ensures
        (sp_scan_text(s, i, esc) == j) == (backslash_run(s, j) % 2 == 0),
    decreases j - i,
{
    if i == j {
        if esc {
            lemma_scan_text_bounds(s, i + 1, false);
        }
    } else {
        if s[i] == '\\' && !esc {
            lemma_parity_aux(s, i + 1, true, j);
        } else if body_text_delimiter_at(s, i, esc) {
            assert(sp_scan_text(s, i, esc) == i);
        } else {
            lemma_parity_aux(s, i + 1, false, j);
        }
    }
}

/// Backslash escaping: scanning body text from the start, an occurrence of
/// `{`, `}` or `@` that the scanner reaches is a delimiter — the scan stops
/// exactly there — precisely when the run of backslashes immediately before
/// it has even length.  An odd run escapes it into literal text.
pub proof fn lemma_escape_parity(s: Seq<char>, j: int)
    requires
        0 <= j < s.len(),
        s[j] == '{' || s[j] == '}' || s[j] == '@',
        sp_scan_text(s, 0, false) >= j,
    ensures
        (sp_scan_text(s, 0, false) == j) == (backslash_run(s, j) % 2 == 0),
{
    lemma_parity_aux(s, 0, false, j);
}

/// A sequence that is exactly one line terminator.
pub open spec fn is_line_terminator_seq(t: Seq<char>) -> bool {
    t == seq!['\n'] || t == seq!['\r', '\n']
}

/// What holds of every text segment the grammar produces: it is non-empty,
/// and unless it is exactly a line terminator it has a non-whitespace
/// character.
pub open spec fn text_segment_wf(t: Seq<char>) -> bool {
    t.len() > 0 && (is_line_terminator_seq(t) || has_non_ws(t))
}

/// What holds of every body item: inline tags freely, text segments as
/// `text_segment_wf` says.
pub open spec fn body_item_wf(it: BodyItemModel) -> bool {
    match it {
        BodyItemModel::TextSegment(t) => text_segment_wf(t),
        BodyItemModel::InlineTag(_) => true,
    }
}

/// All items of a body hold `body_item_wf`.
pub open spec fn body_items_wf(items: Seq<BodyItemModel>) -> bool {
    forall|k: int| 0 <= k < items.len() ==> body_item_wf(#[trigger] items[k])
}

proof fn lemma_segment_wf(s: Seq<char>)
    ensures
        sp_body_text_segment(s) matches Some(c) ==> text_segment_wf(s.subrange(0, c)),
{
    if let Some(c) = sp_body_text_segment(s) {
        lemma_body_text_segment_bounds(s);
        match line_ending_len(s, 0) {
            Some(l) => {
                if l == 1 {
                    assert(s.subrange(0, 1) =~= seq!['\n']);
                } else {
                    assert(s.subrange(0, 2) =~= seq!['\r', '\n']);
                }
            },
            None => {
                lemma_scan_text_bounds(s, 0, false);
                let j = sp_scan_text(s, 0, false);
                let k = choose|k: int| 0 <= k < j && !is_unicode_ws(#[trigger] s.subrange(0, j)[k]);
                assert(s.subrange(0, j)[k] == s[k]);
                assert(s.subrange(0, c)[k] == s[k]);
                assert(has_non_ws(s.subrange(0, c))) by {
                    assert(!is_unicode_ws(s.subrange(0, c)[k]));
                }
            },
        }
    }
}

proof fn lemma_body_items_wf(s: Seq<char>, i: int)
    requires
        0 <= i <= s.len(),
    ensures
        body_items_wf(sp_body_items(s, i).0),
    decreases s.len() - i,
{
    lemma_body_step_bounds(s, i);
    match sp_body_step(s, i) {
        None => {},
        Some((it, j)) => {
            lemma_body_items_wf(s, j);
            let r = sp_body_items(s, j);
            match it {
                None => {},
                Some(x) => {
                    assert(body_item_wf(x)) by {
                        let t0 = suffix(s, i);
                        if sp_line_leading(t0) is None && !(i < s.len() && crate::chars::is_hspace(
                            s[i],
                        )) && !(crate::grammar::sp_inline_tag(t0) is Done) {
                            let c = sp_body_text_segment(t0).unwrap();
                            lemma_segment_wf(t0);
                            lemma_body_text_segment_bounds(t0);
                            lemma_suffix_subrange(s, i, 0, c);
                        }
                    }
                    let items = sp_body_items(s, i).0;
                    assert(items == seq![x] + r.0);
                    assert forall|k: int| 0 <= k < items.len() implies body_item_wf(
                        #[trigger] items[k],
                    ) by {
                        if k == 0 {
                            assert(items[0] == x);
                        } else {
                            assert(items[k] == r.0[k - 1]);
                        }
                    }
                },
            }
        },
    }
}

proof fn lemma_body_wf(s: Seq<char>)
    ensures
        sp_body(s) matches Some((items, c)) ==> body_items_wf(items) && body_meaningful(items),
{
    lemma_body_items_wf(s, 0);
}

/// What holds of every block tag: its items are well-formed, and its body is
/// either meaningful or empty.
pub open spec fn block_tag_wf(bt: BlockTagModel) -> bool {
    body_items_wf(bt.body_items) && (body_meaningful(bt.body_items) || bt.body_items.len() == 0)
}

proof fn lemma_block_tag_wf(s: Seq<char>)
    ensures
        sp_block_tag(s) matches Some((bt, c)) ==> block_tag_wf(bt),
{
    if let Some(ne) = sp_tag_name(s) {
        crate::grammar::lemma_tag_name_bounds(s);
        crate::grammar::lemma_hspace_end(s, ne);
        let p = crate::grammar::hspace_end(s, ne);
        lemma_body_wf(suffix(s, p));
    }
}

proof fn lemma_tag_list_wf(s: Seq<char>, i: int)
    requires
        0 <= i <= s.len(),
    ensures
        forall|k: int|
            0 <= k < sp_tag_list(s, i).0.len() ==> block_tag_wf(#[trigger] sp_tag_list(s, i).0[k]),
    decreases s.len() - i,
{
    lemma_line_leading_bounds(suffix(s, i));
    let j = match sp_line_leading(suffix(s, i)) {
        Some(d) => i + d,
        None => i,
    };
    crate::grammar::lemma_block_tag_bounds(suffix(s, j));
    lemma_block_tag_wf(suffix(s, j));
    match sp_block_tag(suffix(s, j)) {
        None => {},
        Some((bt, c)) => {
            let k2 = opt_line_ending_end(s, j + c);
            if i < k2 <= s.len() {
                lemma_tag_list_wf(s, k2);
                let r = sp_tag_list(s, k2);
                let items = sp_tag_list(s, i).0;
                assert(items == seq![bt] + r.0);
                assert forall|k: int| 0 <= k < items.len() implies block_tag_wf(
                    #[trigger] items[k],
                ) by {
                    if k == 0 {
                        assert(items[0] == bt);
                    } else {
                        assert(items[k] == r.0[k - 1]);
                    }
                }
            }
        },
    }
}

/// Of every comment the grammar accepts: the description, if present, is
/// made of well-formed items and is not all-blank; every block tag's items
/// are well-formed, and a block tag's body is meaningful or empty.  In
/// particular every text segment anywhere in the tree is non-empty and,
/// unless it is exactly a line terminator, holds a non-whitespace character.
pub proof fn lemma_parse_wf(s: Seq<char>, m: DocCommentModel)
    requires
        sp_parse(s) == Some(m),
    ensures
        m.description matches Some(d) ==> body_items_wf(d.body_items) && body_meaningful(
            d.body_items,
        ),
        forall|k: int|
            0 <= k < m.block_tags.len() ==> block_tag_wf(#[trigger] m.block_tags[k]),
{
    lemma_comment_start_bounds(s);
    let a = sp_comment_start(s).unwrap();
    lemma_line_leading_bounds(suffix(s, a));
    let b = match sp_line_leading(suffix(s, a)) {
        Some(d) => a + d,
        None => a,
    };
    lemma_body_bounds(suffix(s, b));
    lemma_body_wf(suffix(s, b));
    let d = match sp_description(suffix(s, b)) {
        Some((dm, c)) => b + c,
        None => b,
    };
    lemma_tag_list_bounds(s, d);
    lemma_tag_list_wf(s, d);
}

} // verus!
