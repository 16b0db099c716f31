//! The data model: storable values, print targets, commands, and lines.

use vstd::prelude::*;

verus! {

/// A storable scalar value — an integer or a text — or a transient alias that
/// names another variable whose current value should be copied.  An alias is
/// resolved before storage and is never itself kept in the environment.
#[derive(Debug, PartialEq, Eq, Clone)]
pub enum Primitive {
    Integer(i64),
    Text(String),
    Alias(String),
}

/// Mathematical model of a [`Primitive`].
pub enum SpecPrimitive {
    Integer(int),
    Text(Seq<char>),
    Alias(Seq<char>),
}

impl View for Primitive {
    type V = SpecPrimitive;

    open spec fn view(&self) -> SpecPrimitive {
        match self {
            Primitive::Integer(v) => SpecPrimitive::Integer(*v as int),
            Primitive::Text(s) => SpecPrimitive::Text(s@),
            Primitive::Alias(a) => SpecPrimitive::Alias(a@),
        }
    }
}

/// What a `PRINT` command emits: a literal string, or the value of the
/// referenced variable.
#[derive(Debug, PartialEq, Eq, Clone)]
pub enum PrintOutput {
    Literal(String),
    VariableRef(String),
}

/// Mathematical model of a [`PrintOutput`].
pub enum SpecPrintOutput {
    Literal(Seq<char>),
    VariableRef(Seq<char>),
}

impl View for PrintOutput {
    type V = SpecPrintOutput;

    open spec fn view(&self) -> SpecPrintOutput {
        match self {
            PrintOutput::Literal(s) => SpecPrintOutput::Literal(s@),
            PrintOutput::VariableRef(s) => SpecPrintOutput::VariableRef(s@),
        }
    }
}

/// One command of the language.
#[derive(Debug, PartialEq, Eq, Clone)]
pub enum Command {
    Print(PrintOutput),
    Jump(usize),
    Assign(String, Primitive),
    Comment,
    Empty,
}

/// Mathematical model of a [`Command`].
pub enum SpecCommand {
    Print(SpecPrintOutput),
    Jump(nat),
    Assign(Seq<char>, SpecPrimitive),
    Comment,
    Empty,
}

impl View for Command {
    type V = SpecCommand;

    open spec fn view(&self) -> SpecCommand {
        match self {
            Command::Print(p) => SpecCommand::Print(p@),
            Command::Jump(n) => SpecCommand::Jump(*n as nat),
            Command::Assign(id, p) => SpecCommand::Assign(id@, p@),
            Command::Comment => SpecCommand::Comment,
            Command::Empty => SpecCommand::Empty,
        }
    }
}

/// The addressable unit of a program: a line number paired with a command.
pub type Line = (usize, Command);

/// Mathematical model of a [`Line`].
pub type SpecLine = (nat, SpecCommand);

pub open spec fn line_view(l: Line) -> SpecLine {
    (l.0 as nat, l.1@)
}

/// The text emitted when a value is printed: a text prints as itself, an
/// integer in decimal, and an alias as the name it holds (an alias is never
/// stored, so the last case is never reached by the engine).
pub open spec fn prim_text(p: SpecPrimitive) -> Seq<char> {
    match p {
        SpecPrimitive::Integer(v) => crate::numbers::spec_int_seq(v),
        SpecPrimitive::Text(s) => s,
        SpecPrimitive::Alias(a) => a,
    }
}

impl Primitive {
    /// The textual value of a stored primitive, as `PRINT` emits it.
    pub fn to_text(&self) -> (r: String)
        ensures
            r@ == prim_text(self@),
    {
        match self {
            Primitive::Integer(v) => crate::numbers::int_to_string(*v),
            Primitive::Text(s) => s.clone(),
            Primitive::Alias(a) => a.clone(),
        }
    }

    /// A structurally equal copy.
    pub fn duplicate(&self) -> (r: Primitive)
        ensures
            r@ == self@,
    {
        match self {
            Primitive::Integer(v) => Primitive::Integer(*v),
            Primitive::Text(s) => Primitive::Text(s.clone()),
            Primitive::Alias(a) => Primitive::Alias(a.clone()),
        }
    }
}

} // verus!
