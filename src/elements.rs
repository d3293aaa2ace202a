use vstd::prelude::*;

verus! {

/// The set of text attributes applied to a chunk: bold and italics.
#[derive(Clone, Copy, Debug, PartialEq, Eq, Structural)]
pub struct TextFormat {
    pub bold: bool,
    pub italics: bool,
}

impl Default for TextFormat {
    /// The empty format: neither bold nor italics.
    fn default() -> (r: Self)
        ensures
            r == TextFormat::plain(),
    {
        TextFormat { bold: false, italics: false }
    }
}

impl TextFormat {
    pub open spec fn plain() -> TextFormat {
        TextFormat { bold: false, italics: false }
    }

    /// The union of two formats: an attribute is set when either side sets it.
    pub open spec fn union(self, other: TextFormat) -> TextFormat {
        TextFormat { bold: self.bold || other.bold, italics: self.italics || other.italics }
    }

    pub open spec fn bold_only() -> TextFormat {
        TextFormat { bold: true, italics: false }
    }

    pub open spec fn italics_only() -> TextFormat {
        TextFormat { bold: false, italics: true }
    }

    /// This format with bold added.
    pub fn add_bold(self) -> (r: Self)
        ensures
            r == self.union(TextFormat::bold_only()),
    {
        TextFormat { bold: true, italics: self.italics }
    }

    /// This format with italics added.
    pub fn add_italics(self) -> (r: Self)
        ensures
            r == self.union(TextFormat::italics_only()),
    {
        TextFormat { bold: self.bold, italics: true }
    }

    /// The union of this format and `other`.
    pub fn combine(self, other: TextFormat) -> (r: Self)
        ensures
            r == self.union(other),
    {
        TextFormat { bold: self.bold || other.bold, italics: self.italics || other.italics }
    }

    pub fn has_bold(&self) -> (r: bool)
        ensures
            r == self.bold,
    {
        self.bold
    }

    pub fn has_italics(&self) -> (r: bool)
        ensures
            r == self.italics,
    {
        self.italics
    }
}

/// Combining formats does not depend on the order of the two sides, and
/// combining a format with itself changes nothing.
pub proof fn lemma_union_commutative_idempotent(a: TextFormat, b: TextFormat)
    ensures
        a.union(b) == b.union(a),
        a.union(a) == a,
        a.union(TextFormat::plain()) == a,
{
}

/// What a chunk of text is: its characters and its format.
pub struct ChunkModel {
    pub text: Seq<char>,
    pub format: TextFormat,
}

/// A run of text that shares one format.
#[derive(Clone, Debug, PartialEq, Eq)]
pub struct TextChunk {
    pub text: String,
    pub format: TextFormat,
}

impl View for TextChunk {
    type V = ChunkModel;

    open spec fn view(&self) -> ChunkModel {
        ChunkModel { text: self.text@, format: self.format }
    }
}

impl TextChunk {
    /// A chunk of `text` in the given format.
    pub fn formatted(text: &str, format: TextFormat) -> (r: Self)
        ensures
            r@ == (ChunkModel { text: text@, format }),
    {
        TextChunk { text: String::from_str(text), format }
    }

    /// A chunk of `text` with no attributes.
    pub fn unformatted(text: &str) -> (r: Self)
        ensures
            r@ == (ChunkModel { text: text@, format: TextFormat::plain() }),
    {
        TextChunk { text: String::from_str(text), format: TextFormat { bold: false, italics: false } }
    }
}

pub open spec fn chunks_view(chunks: Seq<TextChunk>) -> Seq<ChunkModel> {
    chunks.map_values(|c: TextChunk| c@)
}

/// Chunks in reading order. Adjacent chunks with one format are kept apart.
#[derive(Clone, Debug, PartialEq, Eq)]
pub struct Text {
    pub chunks: Vec<TextChunk>,
}

impl View for Text {
    type V = Seq<ChunkModel>;

    open spec fn view(&self) -> Seq<ChunkModel> {
        chunks_view(self.chunks@)
    }
}

/// What an element is, with its text as chunk models.
pub enum ElementModel {
    Heading { text: Seq<ChunkModel>, level: u8 },
    Paragraph { text: Seq<ChunkModel> },
}

/// A block of a slide.
#[derive(Clone, Debug, PartialEq, Eq)]
pub enum Element {
    Heading { text: Text, level: u8 },
    Paragraph { text: Text },
}

impl View for Element {
    type V = ElementModel;

    open spec fn view(&self) -> ElementModel {
        match self {
            Element::Heading { text, level } => ElementModel::Heading { text: text@, level: *level },
            Element::Paragraph { text } => ElementModel::Paragraph { text: text@ },
        }
    }
}

pub open spec fn elements_view(elements: Seq<Element>) -> Seq<ElementModel> {
    elements.map_values(|e: Element| e@)
}

} // verus!
