use presenterm::elements::{Element, Text, TextChunk, TextFormat};
use presenterm::parse::{ParseError, SlideParser};
use presenterm::slide::Slide;
use presenterm::tree::{Block, Document, Inline, NodeKind};

fn text(s: &str) -> Inline {
    Inline::Text(s.to_string())
}

fn para(children: Vec<Inline>) -> Block {
    Block::Paragraph { children }
}

fn parse_blocks(children: Vec<Block>) -> Result<Vec<Slide>, ParseError> {
    SlideParser::new().parse(&Document { children })
}

fn parse_single(block: Block) -> Element {
    let slides = parse_blocks(vec![block]).expect("parsing failed");
    assert_eq!(slides.len(), 1);
    assert_eq!(slides[0].elements.len(), 1);
    slides[0].elements[0].clone()
}

// The tree of "some **bold text**, _italics_, *italics*, **nested _italics_**".
#[test]
fn paragraph() {
    let parsed = parse_single(para(vec![
        text("some "),
        Inline::Strong(vec![text("bold text")]),
        text(", "),
        Inline::Emph(vec![text("italics")]),
        text(", "),
        Inline::Emph(vec![text("italics")]),
        text(", "),
        Inline::Strong(vec![text("nested "), Inline::Emph(vec![text("italics")])]),
    ]));
    let Element::Paragraph { text } = parsed else { panic!("not a paragraph: {parsed:?}"); };
    let expected_chunks = [
        TextChunk::unformatted("some "),
        TextChunk::formatted("bold text", TextFormat::default().add_bold()),
        TextChunk::unformatted(", "),
        TextChunk::formatted("italics", TextFormat::default().add_italics()),
        TextChunk::unformatted(", "),
        TextChunk::formatted("italics", TextFormat::default().add_italics()),
        TextChunk::unformatted(", "),
        TextChunk::formatted("nested ", TextFormat::default().add_bold()),
        TextChunk::formatted("italics", TextFormat::default().add_italics().add_bold()),
    ];
    assert_eq!(text.chunks, expected_chunks);
}

// The tree of "# Title **with bold**".
#[test]
fn heading() {
    let parsed = parse_single(Block::Heading {
        level: 1,
        children: vec![text("Title "), Inline::Strong(vec![text("with bold")])],
    });
    let Element::Heading { text, level } = parsed else { panic!("not a heading: {parsed:?}"); };
    let expected_chunks =
        [TextChunk::unformatted("Title "), TextChunk::formatted("with bold", TextFormat::default().add_bold())];

    assert_eq!(level, 1);
    assert_eq!(text.chunks, expected_chunks);
}

// The tree of "First\n\n---\nSecond\n\n***\nThird\n".
#[test]
fn slide_splitting() {
    let slides = parse_blocks(vec![
        para(vec![text("First")]),
        Block::ThematicBreak,
        para(vec![text("Second")]),
        Block::ThematicBreak,
        para(vec![text("Third")]),
    ])
    .expect("parsing failed");
    assert_eq!(slides.len(), 3);

    assert_eq!(slides[0].elements.len(), 1);
    assert_eq!(slides[1].elements.len(), 1);
    assert_eq!(slides[2].elements.len(), 1);

    let expected = ["First", "Second", "Third"];
    for (slide, expected) in slides.into_iter().zip(expected) {
        let Element::Paragraph { text } = &slide.elements[0] else { panic!("no text") };
        let chunks = [TextChunk::unformatted(expected)];
        assert_eq!(text.chunks, chunks);
    }
}

#[test]
fn three_slides_from_two_break_styles() {
    let slides = parse_blocks(vec![
        para(vec![text("A")]),
        Block::ThematicBreak,
        para(vec![text("B")]),
        Block::ThematicBreak,
        para(vec![text("C")]),
    ])
    .unwrap();
    let expected: Vec<Slide> = ["A", "B", "C"]
        .iter()
        .map(|s| Slide::new(vec![Element::Paragraph { text: Text { chunks: vec![TextChunk::unformatted(s)] } }]))
        .collect();
    assert_eq!(slides, expected);
}

#[test]
fn trailing_break_adds_no_empty_slide() {
    let blocks = || vec![para(vec![text("A")]), Block::ThematicBreak, para(vec![text("B")])];
    let without = parse_blocks(blocks()).unwrap();
    let mut with_break = blocks();
    with_break.push(Block::ThematicBreak);
    let with = parse_blocks(with_break).unwrap();
    assert_eq!(with.len(), 2);
    assert_eq!(with, without);
}

#[test]
fn break_closes_empty_slide() {
    let slides = parse_blocks(vec![Block::ThematicBreak, para(vec![text("A")])]).unwrap();
    assert_eq!(slides.len(), 2);
    assert!(slides[0].elements.is_empty());
    assert_eq!(slides[1].elements.len(), 1);
}

#[test]
fn empty_document_has_no_slides() {
    assert!(parse_blocks(vec![]).unwrap().is_empty());
}

#[test]
fn no_breaks_gives_one_slide_in_order() {
    let slides = parse_blocks(vec![
        Block::Heading { level: 2, children: vec![text("H")] },
        para(vec![text("p1")]),
        para(vec![text("p2")]),
    ])
    .unwrap();
    assert_eq!(slides.len(), 1);
    assert_eq!(
        slides[0].elements,
        vec![
            Element::Heading { text: Text { chunks: vec![TextChunk::unformatted("H")] }, level: 2 },
            Element::Paragraph { text: Text { chunks: vec![TextChunk::unformatted("p1")] } },
            Element::Paragraph { text: Text { chunks: vec![TextChunk::unformatted("p2")] } },
        ]
    );
}

#[test]
fn heading_with_bold_word() {
    let element = parse_single(Block::Heading {
        level: 1,
        children: vec![text("Title "), Inline::Strong(vec![text("bold")])],
    });
    let expected = Element::Heading {
        text: Text {
            chunks: vec![
                TextChunk::unformatted("Title "),
                TextChunk::formatted("bold", TextFormat { bold: true, italics: false }),
            ],
        },
        level: 1,
    };
    assert_eq!(element, expected);
}

#[test]
fn nesting_order_does_not_matter() {
    let strong_in_emph = parse_single(para(vec![Inline::Emph(vec![Inline::Strong(vec![text("x")])])]));
    let emph_in_strong = parse_single(para(vec![Inline::Strong(vec![Inline::Emph(vec![text("x")])])]));
    let both = TextFormat { bold: true, italics: true };
    let expected = Element::Paragraph { text: Text { chunks: vec![TextChunk::formatted("x", both)] } };
    assert_eq!(strong_in_emph, expected);
    assert_eq!(emph_in_strong, expected);
}

#[test]
fn parsing_twice_gives_the_same_slides() {
    let blocks = || {
        vec![
            Block::Heading { level: 1, children: vec![text("T"), Inline::Emph(vec![text("e")])] },
            Block::ThematicBreak,
            para(vec![Inline::Strong(vec![text("s")]), text("t")]),
        ]
    };
    assert_eq!(parse_blocks(blocks()).unwrap(), parse_blocks(blocks()).unwrap());
}

#[test]
fn code_block_is_refused() {
    let r = parse_blocks(vec![para(vec![text("A")]), Block::Other(NodeKind::CodeBlock)]);
    assert!(matches!(r, Err(ParseError::UnsupportedElement("code block"))));
}

#[test]
fn table_is_refused() {
    let r = parse_blocks(vec![Block::Other(NodeKind::Table), Block::ThematicBreak]);
    assert!(matches!(r, Err(ParseError::UnsupportedElement("table"))));
}

#[test]
fn block_quote_is_refused() {
    let r = parse_blocks(vec![Block::Other(NodeKind::BlockQuote)]);
    assert!(matches!(r, Err(ParseError::UnsupportedElement("block quote"))));
}

#[test]
fn image_in_text_is_refused() {
    let r = parse_blocks(vec![para(vec![text("see "), Inline::Other(NodeKind::Image)])]);
    assert!(matches!(r, Err(ParseError::UnsupportedStructure { container: "text", element: "image" })));
}

#[test]
fn nested_link_is_refused() {
    let r = parse_blocks(vec![para(vec![Inline::Strong(vec![text("a"), Inline::Other(NodeKind::Link)])])]);
    assert!(matches!(r, Err(ParseError::UnsupportedStructure { container: "text", element: "link" })));
}

#[test]
fn first_refused_node_is_reported() {
    let r = parse_blocks(vec![para(vec![Inline::Other(NodeKind::Code), Inline::Other(NodeKind::Image)])]);
    assert!(matches!(r, Err(ParseError::UnsupportedStructure { container: "text", element: "code" })));
}

#[test]
fn kind_identifiers() {
    assert_eq!(NodeKind::CodeBlock.identifier(), "code block");
    assert_eq!(NodeKind::HtmlInline.identifier(), "inline html");
    assert_eq!(NodeKind::ThematicBreak.identifier(), "thematic break");
    assert_eq!(NodeKind::FootnoteReference.identifier(), "footnote reference");
    assert_eq!(NodeKind::Emph.identifier(), "emph");
}

#[test]
fn format_union() {
    let bold = TextFormat::default().add_bold();
    let italics = TextFormat::default().add_italics();
    assert_eq!(TextFormat::default(), TextFormat { bold: false, italics: false });
    assert_eq!(bold.combine(italics), italics.combine(bold));
    assert_eq!(bold.combine(bold), bold);
    assert!(bold.has_bold() && !bold.has_italics());
    assert!(italics.has_italics() && !italics.has_bold());
}
