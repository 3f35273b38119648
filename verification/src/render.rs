use crate::address::AddressRange;
use crate::instruction::{Instruction, StyleVar};
use vstd::prelude::*;

verus! {

/// How deep one style is nested: the pushes of it that no pop has answered yet.
pub struct StyleVarStack {
    state: u32,
}

impl StyleVarStack {
    /// The number of pushes that are still open.
    pub closed spec fn depth(self) -> nat {
        self.state as nat
    }

    /// True while the style is on: while at least one push is open.
    pub open spec fn enabled(self) -> bool {
        self.depth() > 0
    }

    /// A style that was never pushed.
    pub fn new() -> (stack: StyleVarStack)
        ensures
            stack.depth() == 0,
    {
        StyleVarStack { state: 0 }
    }

    /// One more push is open.
    pub fn push(&mut self)
        requires
            old(self).depth() < u32::MAX,
        ensures
            final(self).depth() == old(self).depth() + 1,
    {
        self.state += 1;
    }

    /// One push is answered.
    pub fn pop(&mut self)
        requires
            old(self).depth() > 0,
        ensures
            final(self).depth() == old(self).depth() - 1,
    {
        self.state -= 1;
    }

    /// Whether the style is on.
    pub fn is_enabled(&self) -> (on: bool)
        ensures
            on == self.enabled(),
    {
        self.state > 0
    }

    /// Whether one more push fits.
    pub fn can_push(&self) -> (yes: bool)
        ensures
            yes == (self.depth() < u32::MAX),
    {
        self.state < u32::MAX
    }
}

/// What a renderer keeps between two instructions: one depth for each style.
pub struct StyleState {
    pub bold: StyleVarStack,
    pub italic: StyleVarStack,
}

/// What a renderer does for one instruction.
#[derive(Debug, Clone, Copy, PartialEq, Eq, Structural)]
pub enum RenderAction {
    /// Draw the span of the text pool, in the styles that are on.
    Draw { span: AddressRange, bold: bool, italic: bool },
    /// Go to the next line.
    NewLine,
    /// Draw nothing: only the styles changed.
    Restyle,
    /// Stop: whatever follows in the code is not looked at.
    Halt,
}

impl StyleState {
    /// The depth of one style.
    pub open spec fn depth(self, style: StyleVar) -> nat {
        match style {
            StyleVar::Bold => self.bold.depth(),
            StyleVar::Italic => self.italic.depth(),
        }
    }

    /// True when `instruction` can be taken in this state: a pop finds its style
    /// pushed, and a push finds room in its style's counter.
    pub open spec fn accepts(self, instruction: Instruction) -> bool {
        match instruction {
            Instruction::Push(style) => self.depth(style) < u32::MAX,
            Instruction::Pop(style) => self.depth(style) > 0,
            _ => true,
        }
    }

    /// The depth of `style` after `instruction`: a push of `style` adds one, a pop
    /// of `style` takes one away, and nothing else changes it.
    pub open spec fn depth_after(self, instruction: Instruction, style: StyleVar) -> int {
        if instruction == Instruction::Push(style) {
            self.depth(style) as int + 1
        } else if instruction == Instruction::Pop(style) {
            self.depth(style) - 1
        } else {
            self.depth(style) as int
        }
    }

    /// What is done for `instruction` in this state.
    pub open spec fn action(self, instruction: Instruction) -> RenderAction {
        match instruction {
            Instruction::Text(span) => RenderAction::Draw {
                span,
                bold: self.bold.enabled(),
                italic: self.italic.enabled(),
            },
            Instruction::Push(_) => RenderAction::Restyle,
            Instruction::Pop(_) => RenderAction::Restyle,
            Instruction::Endl => RenderAction::NewLine,
            Instruction::Stop => RenderAction::Halt,
        }
    }

    /// The state before the first instruction: no style is on.
    pub fn new() -> (state: StyleState)
        ensures
            state.depth(StyleVar::Bold) == 0,
            state.depth(StyleVar::Italic) == 0,
    {
        StyleState { bold: StyleVarStack::new(), italic: StyleVarStack::new() }
    }

    /// Whether `accepts` holds of `instruction`.
    pub fn can_step(&self, instruction: &Instruction) -> (yes: bool)
        ensures
            yes == self.accepts(*instruction),
    {
        match instruction {
            Instruction::Push(StyleVar::Bold) => self.bold.can_push(),
            Instruction::Push(StyleVar::Italic) => self.italic.can_push(),
            Instruction::Pop(StyleVar::Bold) => self.bold.is_enabled(),
            Instruction::Pop(StyleVar::Italic) => self.italic.is_enabled(),
            _ => true,
        }
    }

    /// Takes one instruction: changes the depth of the style that it pushes or
    /// pops, leaves the other style alone, and says what is to be done. A text is
    /// drawn in the styles that are on when it is met.
    pub fn step(&mut self, instruction: &Instruction) -> (action: RenderAction)
        requires
            old(self).accepts(*instruction),
        ensures
            action == old(self).action(*instruction),
            final(self).depth(StyleVar::Bold) == old(self).depth_after(
                *instruction,
                StyleVar::Bold,
            ),
            final(self).depth(StyleVar::Italic) == old(self).depth_after(
                *instruction,
                StyleVar::Italic,
            ),
    {
        match instruction {
            Instruction::Text(span) => RenderAction::Draw {
                span: *span,
                bold: self.bold.is_enabled(),
                italic: self.italic.is_enabled(),
            },
            Instruction::Push(StyleVar::Bold) => {
                self.bold.push();
                RenderAction::Restyle
            },
            Instruction::Push(StyleVar::Italic) => {
                self.italic.push();
                RenderAction::Restyle
            },
            Instruction::Pop(StyleVar::Bold) => {
                self.bold.pop();
                RenderAction::Restyle
            },
            Instruction::Pop(StyleVar::Italic) => {
                self.italic.pop();
                RenderAction::Restyle
            },
            Instruction::Endl => RenderAction::NewLine,
            Instruction::Stop => RenderAction::Halt,
        }
    }
}

} // verus!
