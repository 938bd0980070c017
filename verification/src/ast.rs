//! The abstract syntax tree of a parsed doc comment.  Every textual field
//! borrows from the input buffer handed to the parser, so no text is copied;
//! the tree lives no longer than that buffer.
//!
//! Each type has a mathematical model (its view) over `Seq<char>`, which the
//! parser contracts are stated against.

use vstd::prelude::*;

verus! {

/// A complete doc comment: an optional free-form description followed by the
/// block tags in source order.
#[derive(Clone, Debug, Default, Eq, PartialEq, Hash)]
pub struct DocComment<'a> {
    pub description: Option<Description<'a>>,
    pub block_tags: Vec<BlockTag<'a>>,
}

/// The free-form prose preceding any block tags.
#[derive(Clone, Debug, Default, Eq, PartialEq, Hash)]
pub struct Description<'a> {
    pub body_items: Vec<BodyItem<'a>>,
}

/// A named `@tag` annotation with its (possibly empty) body.
#[derive(Clone, Debug, Default, Eq, PartialEq, Hash)]
pub struct BlockTag<'a> {
    pub name: &'a str,
    pub body_items: Vec<BodyItem<'a>>,
}

/// One item of a description or block-tag body: a literal run of text or an
/// inline tag.
#[derive(Clone, Debug, Eq, PartialEq, Hash)]
pub enum BodyItem<'a> {
    TextSegment(&'a str),
    InlineTag(InlineTag<'a>),
}

/// A named `{@tag ...}` annotation embedded in running text.  Its body is a
/// flat list of text lines, never further inline tags.
#[derive(Clone, Debug, Default, Eq, PartialEq, Hash)]
pub struct InlineTag<'a> {
    pub name: &'a str,
    pub body_lines: Vec<&'a str>,
}

/// Model of an `InlineTag`.
pub struct InlineTagModel {
    pub name: Seq<char>,
    pub body_lines: Seq<Seq<char>>,
}

/// Model of a `BodyItem`.
pub enum BodyItemModel {
    TextSegment(Seq<char>),
    InlineTag(InlineTagModel),
}

/// Model of a `BlockTag`.
pub struct BlockTagModel {
    pub name: Seq<char>,
    pub body_items: Seq<BodyItemModel>,
}

/// Model of a `Description`.
pub struct DescriptionModel {
    pub body_items: Seq<BodyItemModel>,
}

/// Model of a `DocComment`.
pub struct DocCommentModel {
    pub description: Option<DescriptionModel>,
    pub block_tags: Seq<BlockTagModel>,
}

impl<'a> View for InlineTag<'a> {
    type V = InlineTagModel;

    open spec fn view(&self) -> InlineTagModel {
        InlineTagModel { name: self.name@, body_lines: self.body_lines.deep_view() }
    }
}

impl<'a> DeepView for InlineTag<'a> {
    type V = InlineTagModel;

    open spec fn deep_view(&self) -> InlineTagModel {
        self.view()
    }
}

impl<'a> View for BodyItem<'a> {
    type V = BodyItemModel;

    open spec fn view(&self) -> BodyItemModel {
        match self {
            BodyItem::TextSegment(s) => BodyItemModel::TextSegment(s@),
            BodyItem::InlineTag(t) => BodyItemModel::InlineTag(t@),
        }
    }
}

impl<'a> DeepView for BodyItem<'a> {
    type V = BodyItemModel;

    open spec fn deep_view(&self) -> BodyItemModel {
        self.view()
    }
}

impl<'a> View for BlockTag<'a> {
    type V = BlockTagModel;

    open spec fn view(&self) -> BlockTagModel {
        BlockTagModel { name: self.name@, body_items: self.body_items.deep_view() }
    }
}

impl<'a> DeepView for BlockTag<'a> {
    type V = BlockTagModel;

    open spec fn deep_view(&self) -> BlockTagModel {
        self.view()
    }
}

impl<'a> View for Description<'a> {
    type V = DescriptionModel;

    open spec fn view(&self) -> DescriptionModel {
        DescriptionModel { body_items: self.body_items.deep_view() }
    }
}

impl<'a> View for DocComment<'a> {
    type V = DocCommentModel;

    open spec fn view(&self) -> DocCommentModel {
        DocCommentModel {
            description: match self.description {
                Some(d) => Some(d@),
                None => None,
            },
            block_tags: self.block_tags.deep_view(),
        }
    }
}

} // verus!
