//! The jump-addressable program structure: an ownership-linked list of lines,
//! in program order.

use crate::commands::{line_view, Command, Line, PrintOutput, Primitive, SpecLine};
use vstd::prelude::*;

verus! {

#[derive(Debug, PartialEq, Eq)]
pub enum Node {
    Nil,
    Link { item: Line, next: Box<Node> },
}

/// The sequence of lines held by a list of nodes.
pub open spec fn node_seq(n: Node) -> Seq<SpecLine>
    decreases n,
{
    match n {
        Node::Nil => seq![],
        Node::Link { item, next } => seq![line_view(item)] + node_seq(*next),
    }
}

impl View for Node {
    type V = Seq<SpecLine>;

    open spec fn view(&self) -> Seq<SpecLine> {
        node_seq(*self)
    }
}

/// The first entry of `ns` whose line number equals `line`, together with
/// everything that follows it; `None` if no entry has that number.
pub open spec fn spec_find_line(ns: Seq<SpecLine>, line: nat) -> Option<Seq<SpecLine>>
    decreases ns.len(),
{
    if ns.len() == 0 {
        None
    } else if ns[0].0 == line {
        Some(ns)
    } else {
        spec_find_line(ns.drop_first(), line)
    }
}

fn dup_print_output(p: &PrintOutput) -> (r: PrintOutput)
    ensures
        r@ == p@,
{
    match p {
        PrintOutput::Literal(s) => PrintOutput::Literal(s.clone()),
        PrintOutput::VariableRef(s) => PrintOutput::VariableRef(s.clone()),
    }
}

fn dup_command(c: &Command) -> (r: Command)
    ensures
        r@ == c@,
{
    match c {
        Command::Print(p) => Command::Print(dup_print_output(p)),
        Command::Jump(n) => Command::Jump(*n),
        Command::Assign(id, p) => Command::Assign(id.clone(), p.duplicate()),
        Command::Comment => Command::Comment,
        Command::Empty => Command::Empty,
    }
}

fn dup_line(l: &Line) -> (r: Line)
    ensures
        line_view(r) == line_view(*l),
{
    (l.0, dup_command(&l.1))
}

impl Node {
    /// A structurally equal copy.
    pub fn duplicate(&self) -> (r: Node)
        ensures
            r@ == self@,
        decreases self,
    {
        match self {
            Node::Nil => Node::Nil,
            Node::Link { item, next } => {
                let rest = next.duplicate();
                Node::Link { item: dup_line(item), next: Box::new(rest) }
            },
        }
    }

    fn pushed(self, val: Line) -> (r: Node)
        ensures
            r@ == node_seq(self).push(line_view(val)),
        decreases self,
    {
        match self {
            Node::Nil => {
                let r = Node::Link { item: val, next: Box::new(Node::Nil) };
                proof {
                    assert(r@ =~= node_seq(Node::Nil).push(line_view(val)));
                }
                r
            },
            Node::Link { item, next } => {
                let rest = (*next).pushed(val);
                let r = Node::Link { item, next: Box::new(rest) };
                proof {
                    assert(r@ =~= (seq![line_view(item)] + node_seq(*next)).push(line_view(val)));
                }
                r
            },
        }
    }

    /// Appends a line at the end of the list.
    pub fn push(&mut self, val: Line)
        ensures
            final(self)@ == old(self)@.push(line_view(val)),
    {
        let mut tmp = Node::Nil;
        core::mem::swap(&mut tmp, self);
        let pushed = tmp.pushed(val);
        *self = pushed;
    }

    /// Finds the first entry whose line number equals `line`, returning it and
    /// everything after it in program order, or `None` if no entry matches.
    pub fn find_line(&self, line: usize) -> (r: Option<Node>)
        ensures
            match r {
                Some(n) => spec_find_line(self@, line as nat) == Some(n@),
                None => spec_find_line(self@, line as nat) is None,
            },
        decreases self,
    {
        match self {
            Node::Nil => None,
            Node::Link { item, next } => {
                proof {
                    assert(self@.drop_first() =~= next@);
                    assert(self@[0] == line_view(*item));
                }
                if item.0 == line {
                    Some(self.duplicate())
                } else {
                    next.find_line(line)
                }
            },
        }
    }
}

} // verus!
