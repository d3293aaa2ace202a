use vstd::prelude::*;

verus! {

/// The kinds of node that a markdown parse tree can hold.
#[derive(Clone, Copy, Debug, PartialEq, Eq, Structural)]
pub enum NodeKind {
    Document,
    FrontMatter,
    BlockQuote,
    List,
    Item,
    DescriptionList,
    DescriptionItem,
    DescriptionTerm,
    DescriptionDetails,
    CodeBlock,
    HtmlBlock,
    Paragraph,
    Heading,
    ThematicBreak,
    FootnoteDefinition,
    Table,
    TableRow,
    TableCell,
    Text,
    TaskItem,
    SoftBreak,
    LineBreak,
    Code,
    HtmlInline,
    Emph,
    Strong,
    Strikethrough,
    Superscript,
    Link,
    Image,
    FootnoteReference,
}

impl NodeKind {
    /// The stable diagnostic name of a kind.
    pub open spec fn name(self) -> Seq<char> {
        match self {
            NodeKind::Document => "document"@,
            NodeKind::FrontMatter => "front matter"@,
            NodeKind::BlockQuote => "block quote"@,
            NodeKind::List => "list"@,
            NodeKind::Item => "item"@,
            NodeKind::DescriptionList => "description list"@,
            NodeKind::DescriptionItem => "description item"@,
            NodeKind::DescriptionTerm => "description term"@,
            NodeKind::DescriptionDetails => "description details"@,
            NodeKind::CodeBlock => "code block"@,
            NodeKind::HtmlBlock => "html block"@,
            NodeKind::Paragraph => "paragraph"@,
            NodeKind::Heading => "heading"@,
            NodeKind::ThematicBreak => "thematic break"@,
            NodeKind::FootnoteDefinition => "footnote definition"@,
            NodeKind::Table => "table"@,
            NodeKind::TableRow => "table row"@,
            NodeKind::TableCell => "table cell"@,
            NodeKind::Text => "text"@,
            NodeKind::TaskItem => "task item"@,
            NodeKind::SoftBreak => "soft break"@,
            NodeKind::LineBreak => "line break"@,
            NodeKind::Code => "code"@,
            NodeKind::HtmlInline => "inline html"@,
            NodeKind::Emph => "emph"@,
            NodeKind::Strong => "strong"@,
            NodeKind::Strikethrough => "strikethrough"@,
            NodeKind::Superscript => "superscript"@,
            NodeKind::Link => "link"@,
            NodeKind::Image => "image"@,
            NodeKind::FootnoteReference => "footnote reference"@,
        }
    }

    /// The diagnostic name of this kind, as errors report it.
    pub fn identifier(&self) -> (r: &'static str)
        ensures
            r@ == self.name(),
    {
        match self {
            NodeKind::Document => "document",
            NodeKind::FrontMatter => "front matter",
            NodeKind::BlockQuote => "block quote",
            NodeKind::List => "list",
            NodeKind::Item => "item",
            NodeKind::DescriptionList => "description list",
            NodeKind::DescriptionItem => "description item",
            NodeKind::DescriptionTerm => "description term",
            NodeKind::DescriptionDetails => "description details",
            NodeKind::CodeBlock => "code block",
            NodeKind::HtmlBlock => "html block",
            NodeKind::Paragraph => "paragraph",
            NodeKind::Heading => "heading",
            NodeKind::ThematicBreak => "thematic break",
            NodeKind::FootnoteDefinition => "footnote definition",
            NodeKind::Table => "table",
            NodeKind::TableRow => "table row",
            NodeKind::TableCell => "table cell",
            NodeKind::Text => "text",
            NodeKind::TaskItem => "task item",
            NodeKind::SoftBreak => "soft break",
            NodeKind::LineBreak => "line break",
            NodeKind::Code => "code",
            NodeKind::HtmlInline => "inline html",
            NodeKind::Emph => "emph",
            NodeKind::Strong => "strong",
            NodeKind::Strikethrough => "strikethrough",
            NodeKind::Superscript => "superscript",
            NodeKind::Link => "link",
            NodeKind::Image => "image",
            NodeKind::FootnoteReference => "footnote reference",
        }
    }
}

/// An inline node of a parsed document.
#[derive(Debug, PartialEq, Eq)]
pub enum Inline {
    /// A literal run of text.
    Text(String),
    /// Strong emphasis around its children.
    Strong(Vec<Inline>),
    /// Emphasis around its children.
    Emph(Vec<Inline>),
    /// Any other inline node, by kind; its contents are not read.
    Other(NodeKind),
}

/// A top-level block of a parsed document.
#[derive(Debug, PartialEq, Eq)]
pub enum Block {
    /// A horizontal rule, which ends a slide.
    ThematicBreak,
    Heading { level: u8, children: Vec<Inline> },
    Paragraph { children: Vec<Inline> },
    /// Any other block, by kind; its contents are not read.
    Other(NodeKind),
}

/// The root of a parsed document: its top-level blocks in order.
#[derive(Debug, PartialEq, Eq)]
pub struct Document {
    pub children: Vec<Block>,
}

} // verus!
