use vstd::prelude::*;

use crate::elements::{ChunkModel, Element, ElementModel, Text, TextChunk};
use crate::slide::Slide;

verus! {

/// One operation on a terminal: cursor, attributes, styled text, flush.
#[derive(Debug, PartialEq, Eq)]
pub enum Command {
    HideCursor,
    /// Clears the whole visible screen.
    ClearAll,
    MoveTo { column: u16, row: u16 },
    MoveToColumn(u16),
    MoveDown(u16),
    SetBold,
    ResetAttributes,
    /// Prints the chunk's text styled by the chunk's own format.
    Print(TextChunk),
    Flush,
}

/// What a command is, with printed text as a chunk model.
pub enum CommandModel {
    HideCursor,
    ClearAll,
    MoveTo { column: u16, row: u16 },
    MoveToColumn(u16),
    MoveDown(u16),
    SetBold,
    ResetAttributes,
    Print(ChunkModel),
    Flush,
}

impl View for Command {
    type V = CommandModel;

    open spec fn view(&self) -> CommandModel {
        match self {
            Command::HideCursor => CommandModel::HideCursor,
            Command::ClearAll => CommandModel::ClearAll,
            Command::MoveTo { column, row } => CommandModel::MoveTo { column: *column, row: *row },
            Command::MoveToColumn(c) => CommandModel::MoveToColumn(*c),
            Command::MoveDown(n) => CommandModel::MoveDown(*n),
            Command::SetBold => CommandModel::SetBold,
            Command::ResetAttributes => CommandModel::ResetAttributes,
            Command::Print(chunk) => CommandModel::Print(chunk@),
            Command::Flush => CommandModel::Flush,
        }
    }
}

pub open spec fn commands_view(commands: Seq<Command>) -> Seq<CommandModel> {
    commands.map_values(|c: Command| c@)
}

/// One print per chunk, in reading order.
pub open spec fn text_commands(text: Seq<ChunkModel>) -> Seq<CommandModel> {
    text.map_values(|c: ChunkModel| CommandModel::Print(c))
}

/// An element starts at column 0 and ends two rows further down; a heading is
/// bold throughout and resets the attributes after it.
pub open spec fn element_commands(element: ElementModel) -> Seq<CommandModel> {
    match element {
        ElementModel::Heading { text, .. } => seq![
            CommandModel::MoveToColumn(0),
            CommandModel::SetBold,
        ] + text_commands(text) + seq![CommandModel::MoveDown(2), CommandModel::ResetAttributes],
        ElementModel::Paragraph { text } => seq![CommandModel::MoveToColumn(0)] + text_commands(
            text,
        ) + seq![CommandModel::MoveDown(2)],
    }
}

/// The elements drawn in order.
pub open spec fn elements_commands(elements: Seq<ElementModel>) -> Seq<CommandModel>
    decreases elements.len(),
{
    if elements.len() == 0 {
        Seq::empty()
    } else {
        elements_commands(elements.drop_last()) + element_commands(elements.last())
    }
}

/// A slide: its elements in order, then one flush.
pub open spec fn slide_commands(elements: Seq<ElementModel>) -> Seq<CommandModel> {
    elements_commands(elements).push(CommandModel::Flush)
}

/// A screen: cleared, the cursor at the origin, then the slide.
pub open spec fn screen_commands(elements: Seq<ElementModel>) -> Seq<CommandModel> {
    seq![CommandModel::ClearAll, CommandModel::MoveTo { column: 0, row: 0 }] + slide_commands(
        elements,
    )
}

/// Lays out the terminal commands that paint a slide, in the order in which
/// they are to be sent.
pub struct Drawer {
    commands: Vec<Command>,
}

impl View for Drawer {
    type V = Seq<CommandModel>;

    closed spec fn view(&self) -> Seq<CommandModel> {
        commands_view(self.commands@)
    }
}

impl Drawer {
    /// A drawer whose first command hides the cursor.
    pub fn new() -> (r: Self)
        ensures
            r@ == seq![CommandModel::HideCursor],
    {
        let mut commands: Vec<Command> = Vec::new();
        commands.push(Command::HideCursor);
        let r = Drawer { commands };
        assert(r@ =~= seq![CommandModel::HideCursor]);
        r
    }

    /// Hands out the commands laid out so far and starts an empty list.
    pub fn take_commands(&mut self) -> (r: Vec<Command>)
        ensures
            commands_view(r@) == old(self)@,
            final(self)@ == Seq::<CommandModel>::empty(),
    {
        let mut r: Vec<Command> = Vec::new();
        std::mem::swap(&mut self.commands, &mut r);
        assert(commands_view(self.commands@) =~= Seq::<CommandModel>::empty());
        r
    }

    /// Clears the screen, moves to the origin and draws the first slide;
    /// the others are not drawn.
    pub fn draw(&mut self, slides: &[Slide])
        requires
            slides@.len() > 0,
        ensures
            final(self)@ == old(self)@ + screen_commands(slides@[0]@),
    {
        self.push(Command::ClearAll);
        self.push(Command::MoveTo { column: 0, row: 0 });
        self.draw_slide(&slides[0]);
        assert(self@ =~= old(self)@ + screen_commands(slides@[0]@));
    }

    /// Draws the elements of `slide` in order, then flushes once.
    pub fn draw_slide(&mut self, slide: &Slide)
        ensures
            final(self)@ == old(self)@ + slide_commands(slide@),
    {
        let mut i: usize = 0;
        assert(slide@.subrange(0, 0) =~= Seq::<ElementModel>::empty());
        assert(old(self)@ + elements_commands(slide@.subrange(0, 0)) =~= old(self)@);
        while i < slide.elements.len()
            invariant
                0 <= i <= slide@.len(),
                slide@.len() == slide.elements@.len(),
                self@ == old(self)@ + elements_commands(slide@.subrange(0, i as int)),
            decreases slide@.len() - i,
        {
            let ghost before = self@;
            self.draw_element(&slide.elements[i]);
            assert(slide@.subrange(0, i + 1).drop_last() =~= slide@.subrange(0, i as int));
            assert(slide@.subrange(0, i + 1).last() == slide.elements@[i as int]@);
            assert(self@ =~= old(self)@ + elements_commands(slide@.subrange(0, i + 1)));
            i += 1;
        }
        assert(slide@.subrange(0, slide@.len() as int) =~= slide@);
        self.push(Command::Flush);
        assert(self@ =~= old(self)@ + slide_commands(slide@));
    }

    fn draw_element(&mut self, element: &Element)
        ensures
            final(self)@ == old(self)@ + element_commands(element@),
    {
        self.push(Command::MoveToColumn(0));
        match element {
            // the level does not change how a heading looks
            Element::Heading { text, .. } => {
                self.push(Command::SetBold);
                self.draw_text(text);
                self.push(Command::MoveDown(2));
                self.push(Command::ResetAttributes);
            },
            Element::Paragraph { text } => {
                self.draw_text(text);
                self.push(Command::MoveDown(2));
            },
        }
        assert(self@ =~= old(self)@ + element_commands(element@));
    }

    fn draw_text(&mut self, text: &Text)
        ensures
            final(self)@ == old(self)@ + text_commands(text@),
    {
        let mut i: usize = 0;
        assert(old(self)@ + text_commands(text@.subrange(0, 0)) =~= old(self)@);
        while i < text.chunks.len()
            invariant
                0 <= i <= text@.len(),
                text@.len() == text.chunks@.len(),
                self@ == old(self)@ + text_commands(text@.subrange(0, i as int)),
            decreases text@.len() - i,
        {
            let chunk = &text.chunks[i];
            self.push(Command::Print(TextChunk { text: chunk.text.clone(), format: chunk.format }));
            assert(self@ =~= old(self)@ + text_commands(text@.subrange(0, i + 1)));
            i += 1;
        }
        assert(text@.subrange(0, text@.len() as int) =~= text@);
    }

    fn push(&mut self, command: Command)
        ensures
            final(self)@ == old(self)@.push(command@),
    {
        self.commands.push(command);
        assert(self@ =~= old(self)@.push(command@));
    }
}

} // verus!
