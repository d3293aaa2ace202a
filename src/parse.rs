use vstd::prelude::*;

use crate::elements::{
    chunks_view, elements_view, ChunkModel, Element, ElementModel, Text, TextChunk, TextFormat,
};
use crate::slide::{slides_view, Slide};
use crate::tree::{Block, Document, Inline, NodeKind};

verus! {

/// Why a document could not be turned into slides.
#[derive(Debug)]
pub enum ParseError {
    /// A top-level block of this kind has no element.
    UnsupportedElement(&'static str),
    /// An inline node of kind `element` cannot stand inside `container`.
    UnsupportedStructure { container: &'static str, element: &'static str },
}

/// What an error reports, as character sequences.
pub enum ErrorModel {
    UnsupportedElement(Seq<char>),
    UnsupportedStructure { container: Seq<char>, element: Seq<char> },
}

impl View for ParseError {
    type V = ErrorModel;

    open spec fn view(&self) -> ErrorModel {
        match self {
            ParseError::UnsupportedElement(kind) => ErrorModel::UnsupportedElement(kind@),
            ParseError::UnsupportedStructure { container, element } => ErrorModel::UnsupportedStructure {
                container: container@,
                element: element@,
            },
        }
    }
}

/// The container named when an inline node is refused.
pub open spec fn text_container() -> Seq<char> {
    "text"@
}

/// The chunks that a sequence of inline nodes yields under `format`, or the
/// first refused node, from left to right.
pub open spec fn text_chunks(nodes: Seq<Inline>, format: TextFormat) -> Result<
    Seq<ChunkModel>,
    ErrorModel,
>
    decreases nodes,
{
    if nodes.len() == 0 {
        Ok(Seq::empty())
    } else {
        match text_chunks(nodes.subrange(0, nodes.len() - 1), format) {
            Err(e) => Err(e),
            Ok(prev) => match nodes[nodes.len() - 1] {
                Inline::Text(t) => Ok(prev.push(ChunkModel { text: t@, format })),
                Inline::Strong(children) => match text_chunks(
                    children@,
                    format.union(TextFormat::bold_only()),
                ) {
                    Err(e) => Err(e),
                    Ok(inner) => Ok(prev + inner),
                },
                Inline::Emph(children) => match text_chunks(
                    children@,
                    format.union(TextFormat::italics_only()),
                ) {
                    Err(e) => Err(e),
                    Ok(inner) => Ok(prev + inner),
                },
                Inline::Other(kind) => Err(
                    ErrorModel::UnsupportedStructure { container: text_container(), element: kind.name() },
                ),
            },
        }
    }
}

pub open spec fn chunks_result_view(r: Result<Vec<TextChunk>, ParseError>) -> Result<
    Seq<ChunkModel>,
    ErrorModel,
> {
    match r {
        Ok(v) => Ok(chunks_view(v@)),
        Err(e) => Err(e@),
    }
}


/// The element that a top-level block becomes, or why it cannot be one.
pub open spec fn element_of(block: Block) -> Result<ElementModel, ErrorModel> {
    match block {
        Block::Heading { level, children } => match text_chunks(children@, TextFormat::plain()) {
            Ok(text) => Ok(ElementModel::Heading { text, level }),
            Err(e) => Err(e),
        },
        Block::Paragraph { children } => match text_chunks(children@, TextFormat::plain()) {
            Ok(text) => Ok(ElementModel::Paragraph { text }),
            Err(e) => Err(e),
        },
        Block::ThematicBreak => Err(ErrorModel::UnsupportedElement(NodeKind::ThematicBreak.name())),
        Block::Other(kind) => Err(ErrorModel::UnsupportedElement(kind.name())),
    }
}

/// After reading `blocks`: the slides closed so far and the elements of the
/// slide still open. A thematic break closes the open slide, even an empty
/// one; any other block adds its element to it.
pub open spec fn split_state(blocks: Seq<Block>) -> Result<
    (Seq<Seq<ElementModel>>, Seq<ElementModel>),
    ErrorModel,
>
    decreases blocks.len(),
{
    if blocks.len() == 0 {
        Ok((Seq::empty(), Seq::empty()))
    } else {
        match split_state(blocks.drop_last()) {
            Err(e) => Err(e),
            Ok((slides, open)) => match blocks.last() {
                Block::ThematicBreak => Ok((slides.push(open), Seq::empty())),
                other => match element_of(other) {
                    Err(e) => Err(e),
                    Ok(element) => Ok((slides, open.push(element))),
                },
            },
        }
    }
}

/// The slides of a document: those that its breaks close, then the open
/// slide when it holds anything.
pub open spec fn slides_of(blocks: Seq<Block>) -> Result<Seq<Seq<ElementModel>>, ErrorModel> {
    match split_state(blocks) {
        Err(e) => Err(e),
        Ok((slides, open)) => Ok(
            if open.len() > 0 {
                slides.push(open)
            } else {
                slides
            },
        ),
    }
}

pub open spec fn element_result_view(r: Result<Element, ParseError>) -> Result<
    ElementModel,
    ErrorModel,
> {
    match r {
        Ok(e) => Ok(e@),
        Err(e) => Err(e@),
    }
}

pub open spec fn text_result_view(r: Result<Text, ParseError>) -> Result<
    Seq<ChunkModel>,
    ErrorModel,
> {
    match r {
        Ok(t) => Ok(t@),
        Err(e) => Err(e@),
    }
}

pub open spec fn slides_result_view(r: Result<Vec<Slide>, ParseError>) -> Result<
    Seq<Seq<ElementModel>>,
    ErrorModel,
> {
    match r {
        Ok(v) => Ok(slides_view(v@)),
        Err(e) => Err(e@),
    }
}

/// Turning a document into slides is a function of its blocks: two runs on
/// the same blocks give the same slides, or the same error.
pub proof fn lemma_parse_deterministic(
    blocks: Seq<Block>,
    first: Result<Vec<Slide>, ParseError>,
    second: Result<Vec<Slide>, ParseError>,
)
    requires
        slides_result_view(first) == slides_of(blocks),
        slides_result_view(second) == slides_of(blocks),
    ensures
        slides_result_view(first) == slides_result_view(second),
{
}

/// `nodes` is a single literal run of `t`.
pub open spec fn is_single_run(nodes: Seq<Inline>, t: Seq<char>) -> bool {
    nodes.len() == 1 && match nodes[0] {
        Inline::Text(s) => s@ == t,
        _ => false,
    }
}

/// `node` is strong emphasis around emphasis around `t`, or emphasis around
/// strong emphasis around `t`.
pub open spec fn is_nested_emphasis(node: Inline, t: Seq<char>) -> bool {
    match node {
        Inline::Strong(outer) => outer@.len() == 1 && match outer@[0] {
            Inline::Emph(inner) => is_single_run(inner@, t),
            _ => false,
        },
        Inline::Emph(outer) => outer@.len() == 1 && match outer@[0] {
            Inline::Strong(inner) => is_single_run(inner@, t),
            _ => false,
        },
        _ => false,
    }
}

proof fn lemma_single_run(nodes: Seq<Inline>, t: Seq<char>, format: TextFormat)
    requires
        is_single_run(nodes, t),
    ensures
        text_chunks(nodes, format) == Ok::<Seq<ChunkModel>, ErrorModel>(
            seq![ChunkModel { text: t, format }],
        ),
{
    assert(nodes.subrange(0, 0) =~= Seq::<Inline>::empty());
    assert(text_chunks(nodes.subrange(0, 0), format) == Ok::<Seq<ChunkModel>, ErrorModel>(
        Seq::empty(),
    ));
    assert(Seq::<ChunkModel>::empty().push(ChunkModel { text: t, format }) =~= seq![
        ChunkModel { text: t, format },
    ]);
}

/// Strong emphasis inside emphasis, or emphasis inside strong emphasis,
/// yields its text as one chunk that is both bold and italic, whichever way
/// round the two are nested and whatever format surrounds them.
pub proof fn lemma_nested_emphasis(node: Inline, t: Seq<char>, format: TextFormat)
    requires
        is_nested_emphasis(node, t),
    ensures
        text_chunks(seq![node], format) == Ok::<Seq<ChunkModel>, ErrorModel>(
            seq![
                ChunkModel {
                    text: t,
                    format: format.union(TextFormat { bold: true, italics: true }),
                },
            ],
        ),
{
    let both = format.union(TextFormat { bold: true, italics: true });
    let expected = seq![ChunkModel { text: t, format: both }];
    let outer_nodes = seq![node];
    assert(outer_nodes.subrange(0, 0) =~= Seq::<Inline>::empty());
    assert(text_chunks(outer_nodes.subrange(0, 0), format) == Ok::<Seq<ChunkModel>, ErrorModel>(
        Seq::empty(),
    ));
    assert(Seq::<ChunkModel>::empty() + expected =~= expected);
    match node {
        Inline::Strong(outer) => {
            let f = format.union(TextFormat::bold_only());
            assert(outer@.subrange(0, 0) =~= Seq::<Inline>::empty());
            assert(text_chunks(outer@.subrange(0, 0), f) == Ok::<Seq<ChunkModel>, ErrorModel>(
                Seq::empty(),
            ));
            match outer@[0] {
                Inline::Emph(inner) => {
                    lemma_single_run(inner@, t, f.union(TextFormat::italics_only()));
                    assert(f.union(TextFormat::italics_only()) == both);
                    assert(text_chunks(outer@, f) == Ok::<Seq<ChunkModel>, ErrorModel>(expected));
                    assert(outer_nodes[0] == node);
                },
                _ => {},
            }
        },
        Inline::Emph(outer) => {
            let f = format.union(TextFormat::italics_only());
            assert(outer@.subrange(0, 0) =~= Seq::<Inline>::empty());
            assert(text_chunks(outer@.subrange(0, 0), f) == Ok::<Seq<ChunkModel>, ErrorModel>(
                Seq::empty(),
            ));
            match outer@[0] {
                Inline::Strong(inner) => {
                    lemma_single_run(inner@, t, f.union(TextFormat::bold_only()));
                    assert(f.union(TextFormat::bold_only()) == both);
                    assert(text_chunks(outer@, f) == Ok::<Seq<ChunkModel>, ErrorModel>(expected));
                    assert(outer_nodes[0] == node);
                },
                _ => {},
            }
        },
        _ => {},
    }
}

/// The elements that the blocks become, in order, when each becomes one.
pub open spec fn elements_of(blocks: Seq<Block>) -> Seq<ElementModel> {
    blocks.map_values(|b: Block| element_of(b)->Ok_0)
}

proof fn lemma_split_without_breaks(blocks: Seq<Block>)
    requires
        forall|i: int| 0 <= i < blocks.len() ==> element_of(#[trigger] blocks[i]) is Ok,
    ensures
        split_state(blocks) == Ok::<(Seq<Seq<ElementModel>>, Seq<ElementModel>), ErrorModel>(
            (Seq::empty(), elements_of(blocks)),
        ),
    decreases blocks.len(),
{
    if blocks.len() == 0 {
        assert(elements_of(blocks) =~= Seq::<ElementModel>::empty());
    } else {
        let init = blocks.drop_last();
        assert forall|i: int| 0 <= i < init.len() implies element_of(#[trigger] init[i]) is Ok by {
            assert(init[i] == blocks[i]);
        }
        lemma_split_without_breaks(init);
        assert(element_of(blocks[blocks.len() - 1]) is Ok);
        assert(elements_of(init).push(element_of(blocks.last())->Ok_0) =~= elements_of(blocks));
    }
}

/// A document with no thematic break whose blocks each become an element
/// gives exactly one slide, which holds those elements in document order.
pub proof fn lemma_no_breaks_one_slide(blocks: Seq<Block>)
    requires
        blocks.len() > 0,
        forall|i: int| 0 <= i < blocks.len() ==> !(#[trigger] blocks[i] is ThematicBreak),
        forall|i: int| 0 <= i < blocks.len() ==> element_of(#[trigger] blocks[i]) is Ok,
    ensures
        slides_of(blocks) == Ok::<Seq<Seq<ElementModel>>, ErrorModel>(seq![elements_of(blocks)]),
{
    lemma_split_without_breaks(blocks);
    assert(Seq::<Seq<ElementModel>>::empty().push(elements_of(blocks)) =~= seq![
        elements_of(blocks),
    ]);
}

/// A thematic break at the end of a document closes the last slide and adds
/// no empty slide after it: when the blocks before it compile and do not end
/// on a break themselves, the document gives the same slides with the break
/// as without it.
pub proof fn lemma_trailing_break_adds_no_slide(blocks: Seq<Block>)
    requires
        blocks.len() > 0,
        !(blocks.last() is ThematicBreak),
        slides_of(blocks) is Ok,
    ensures
        slides_of(blocks.push(Block::ThematicBreak)) == slides_of(blocks),
{
    let with_break = blocks.push(Block::ThematicBreak);
    assert(with_break.drop_last() =~= blocks);
    assert(with_break.last() == Block::ThematicBreak);
}

/// Once a prefix of the blocks is refused, the whole document is refused
/// with the same error.
proof fn lemma_split_prefix_error(blocks: Seq<Block>, k: int)
    requires
        0 <= k <= blocks.len(),
        split_state(blocks.subrange(0, k)) is Err,
    ensures
        split_state(blocks) == split_state(blocks.subrange(0, k)),
    decreases blocks.len() - k,
{
    if k == blocks.len() {
        assert(blocks.subrange(0, k) =~= blocks);
    } else {
        assert(blocks.subrange(0, k + 1).drop_last() =~= blocks.subrange(0, k));
        lemma_split_prefix_error(blocks, k + 1);
    }
}

/// Once a prefix of the nodes is refused, the whole sequence is refused
/// with the same error.
proof fn lemma_prefix_error(nodes: Seq<Inline>, k: int, format: TextFormat)
    requires
        0 <= k <= nodes.len(),
        text_chunks(nodes.subrange(0, k), format) is Err,
    ensures
        text_chunks(nodes, format) == text_chunks(nodes.subrange(0, k), format),
    decreases nodes.len() - k,
{
    if k == nodes.len() {
        assert(nodes.subrange(0, k) =~= nodes);
    } else {
        assert(nodes.subrange(0, k + 1).subrange(0, k) =~= nodes.subrange(0, k));
        lemma_prefix_error(nodes, k + 1, format);
    }
}

/// The struct that turns a parsed document into slides.
pub struct SlideParser {}

impl SlideParser {
    pub fn new() -> (r: Self) {
        SlideParser {}
    }

    /// Turns the top-level blocks of `document` into slides, split at its
    /// thematic breaks.
    pub fn parse(&self, document: &Document) -> (r: Result<Vec<Slide>, ParseError>)
        ensures
            slides_result_view(r) == slides_of(document.children@),
    {
        let blocks = &document.children;
        let mut slides: Vec<Slide> = Vec::new();
        let mut slide_elements: Vec<Element> = Vec::new();
        let mut i: usize = 0;
        assert(blocks@.subrange(0, 0) =~= Seq::<Block>::empty());
        assert(slides_view(slides@) =~= Seq::<Seq<ElementModel>>::empty());
        assert(elements_view(slide_elements@) =~= Seq::<ElementModel>::empty());
        while i < blocks.len()
            invariant
                0 <= i <= blocks@.len(),
                blocks@ == document.children@,
                split_state(blocks@.subrange(0, i as int)) == Ok::<
                    (Seq<Seq<ElementModel>>, Seq<ElementModel>),
                    ErrorModel,
                >((slides_view(slides@), elements_view(slide_elements@))),
            decreases blocks@.len() - i,
        {
            let ghost prev_slides = slides@;
            let ghost prev_elements = slide_elements@;
            assert(blocks@.subrange(0, i + 1).drop_last() =~= blocks@.subrange(0, i as int));
            match &blocks[i] {
                Block::ThematicBreak => {
                    slides.push(Slide::new(slide_elements));
                    slide_elements = Vec::new();
                    assert(slides_view(slides@) =~= slides_view(prev_slides).push(
                        elements_view(prev_elements),
                    ));
                    assert(elements_view(slide_elements@) =~= Seq::<ElementModel>::empty());
                },
                block => {
                    match Self::parse_element(block) {
                        Ok(element) => {
                            slide_elements.push(element);
                            assert(elements_view(slide_elements@) =~= elements_view(
                                prev_elements,
                            ).push(slide_elements@.last()@));
                        },
                        Err(e) => {
                            proof {
                                lemma_split_prefix_error(blocks@, i + 1);
                            }
                            return Err(e);
                        },
                    }
                },
            }
            i += 1;
        }
        assert(blocks@.subrange(0, blocks@.len() as int) =~= blocks@);
        if slide_elements.len() > 0 {
            let ghost prev_slides = slides@;
            slides.push(Slide::new(slide_elements));
            assert(slides_view(slides@) =~= slides_view(prev_slides).push(slides@.last()@));
        }
        Ok(slides)
    }

    /// The element for one top-level block: a heading or a paragraph; any
    /// other kind is refused by name.
    fn parse_element(block: &Block) -> (r: Result<Element, ParseError>)
        ensures
            element_result_view(r) == element_of(*block),
    {
        match block {
            Block::Heading { level, children } => Self::parse_heading(*level, children),
            Block::Paragraph { children } => Self::parse_paragraph(children),
            Block::ThematicBreak => Err(
                ParseError::UnsupportedElement(NodeKind::ThematicBreak.identifier()),
            ),
            Block::Other(kind) => Err(ParseError::UnsupportedElement(kind.identifier())),
        }
    }

    fn parse_heading(level: u8, children: &Vec<Inline>) -> (r: Result<Element, ParseError>)
        ensures
            element_result_view(r) == element_of(
                Block::Heading { level, children: *children },
            ),
    {
        match Self::parse_text(children) {
            Ok(text) => Ok(Element::Heading { text, level }),
            Err(e) => Err(e),
        }
    }

    fn parse_paragraph(children: &Vec<Inline>) -> (r: Result<Element, ParseError>)
        ensures
            element_result_view(r) == element_of(Block::Paragraph { children: *children }),
    {
        match Self::parse_text(children) {
            Ok(text) => Ok(Element::Paragraph { text }),
            Err(e) => Err(e),
        }
    }

    /// The text of a block's inline children, starting with no format.
    fn parse_text(children: &Vec<Inline>) -> (r: Result<Text, ParseError>)
        ensures
            text_result_view(r) == text_chunks(children@, TextFormat::plain()),
    {
        match Self::parse_text_chunks(children, TextFormat::default()) {
            Ok(chunks) => Ok(Text { chunks }),
            Err(e) => Err(e),
        }
    }

    /// Walks `nodes` left to right, carrying `format` into strong and
    /// emphasised runs, and flattens what they yield into one list.
    fn parse_text_chunks(nodes: &Vec<Inline>, format: TextFormat) -> (r: Result<
        Vec<TextChunk>,
        ParseError,
    >)
        ensures
            chunks_result_view(r) == text_chunks(nodes@, format),
        decreases nodes@,
    {
        let mut chunks: Vec<TextChunk> = Vec::new();
        let mut i: usize = 0;
        assert(nodes@.subrange(0, 0) =~= Seq::<Inline>::empty());
        assert(chunks_view(chunks@) =~= Seq::<ChunkModel>::empty());
        while i < nodes.len()
            invariant
                0 <= i <= nodes@.len(),
                text_chunks(nodes@.subrange(0, i as int), format) == Ok::<
                    Seq<ChunkModel>,
                    ErrorModel,
                >(chunks_view(chunks@)),
            decreases nodes@.len() - i,
        {
            let ghost prev = chunks@;
            assert(nodes@.subrange(0, i + 1).subrange(0, i as int) =~= nodes@.subrange(0, i as int));
            match &nodes[i] {
                Inline::Text(t) => {
                    chunks.push(TextChunk { text: t.clone(), format });
                    assert(chunks_view(chunks@) =~= chunks_view(prev).push(chunks@.last()@));
                },
                Inline::Strong(children) => {
                    match Self::parse_text_chunks(children, format.add_bold()) {
                        Ok(mut inner) => {
                            let ghost inner_view = inner@;
                            chunks.append(&mut inner);
                            assert(chunks_view(chunks@) =~= chunks_view(prev) + chunks_view(inner_view));
                        },
                        Err(e) => {
                            proof {
                                lemma_prefix_error(nodes@, i + 1, format);
                            }
                            return Err(e);
                        },
                    }
                },
                Inline::Emph(children) => {
                    match Self::parse_text_chunks(children, format.add_italics()) {
                        Ok(mut inner) => {
                            let ghost inner_view = inner@;
                            chunks.append(&mut inner);
                            assert(chunks_view(chunks@) =~= chunks_view(prev) + chunks_view(inner_view));
                        },
                        Err(e) => {
                            proof {
                                lemma_prefix_error(nodes@, i + 1, format);
                            }
                            return Err(e);
                        },
                    }
                },
                Inline::Other(kind) => {
                    proof {
                        lemma_prefix_error(nodes@, i + 1, format);
                    }
                    return Err(
                        ParseError::UnsupportedStructure { container: "text", element: kind.identifier() },
                    );
                },
            }
            i += 1;
        }
        assert(nodes@.subrange(0, nodes@.len() as int) =~= nodes@);
        Ok(chunks)
    }
}

} // verus!
