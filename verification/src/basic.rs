//! The program structure and the sequential execution engine.
//!
//! A program is built once from parsed input and is immutable thereafter: the
//! engine drives an independent cursor over a copy of the line list, so jumps
//! never mutate the canonical program.  The engine owns the variable
//! environment for the duration of execution.

use crate::commands::{
    line_view, prim_text, Command, Line, Primitive, PrintOutput, SpecCommand, SpecLine,
    SpecPrimitive, SpecPrintOutput,
};
use crate::env::Env;
use crate::node::{node_seq, spec_find_line, Node};
use crate::parse_commands::{lemma_parse_line_bounds, parse_line_at, spec_parse_line};
use vstd::prelude::*;
use vstd::string::StrSliceExecFns;
use vstd::string::StringExecFns;

verus! {

/// A fatal runtime fault.  Referencing an undefined variable or jumping to a
/// nonexistent line number aborts execution; there is no recovery.
#[derive(Debug, PartialEq, Eq, Clone)]
pub enum RunError {
    MissingLine(usize),
    UndefinedVariable(String),
}

/// Mathematical model of a [`RunError`].
pub enum SpecRunError {
    MissingLine(nat),
    UndefinedVariable(Seq<char>),
}

impl View for RunError {
    type V = SpecRunError;

    open spec fn view(&self) -> SpecRunError {
        match self {
            RunError::MissingLine(n) => SpecRunError::MissingLine(*n as nat),
            RunError::UndefinedVariable(id) => SpecRunError::UndefinedVariable(id@),
        }
    }
}

pub open spec fn spec_run_error_message(e: SpecRunError) -> Seq<char> {
    match e {
        SpecRunError::MissingLine(n) => "Cannot jump to line "@ + crate::numbers::dec_rep(n)
            + ", it does not exist"@,
        SpecRunError::UndefinedVariable(id) => "Variable "@ + id + " is not defined"@,
    }
}

impl RunError {
    /// A human-readable description of the fault.
    pub fn message(&self) -> (r: String)
        ensures
            r@ == spec_run_error_message(self@),
    {
        match self {
            RunError::MissingLine(n) => {
                let mut out = String::from_str("Cannot jump to line ");
                let digits = crate::numbers::uint_to_string(*n as u64);
                out.append(digits.as_str());
                out.append(", it does not exist");
                out
            },
            RunError::UndefinedVariable(id) => {
                let mut out = String::from_str("Variable ");
                out.append(id.as_str());
                out.append(" is not defined");
                out
            },
        }
    }
}

/// What one execution step did.
#[derive(Debug, PartialEq, Eq, Clone)]
pub enum StepOutcome {
    /// The cursor had no current entry: the program has terminated.
    Finished,
    /// One command ran; a `PRINT` carries the emitted text.
    Ran(Option<String>),
    /// A fatal fault; execution cannot continue.
    Aborted(RunError),
}

/// Mathematical model of a [`StepOutcome`].
pub enum SpecStepOutcome {
    Finished,
    Ran(Option<Seq<char>>),
    Aborted(SpecRunError),
}

impl View for StepOutcome {
    type V = SpecStepOutcome;

    open spec fn view(&self) -> SpecStepOutcome {
        match self {
            StepOutcome::Finished => SpecStepOutcome::Finished,
            StepOutcome::Ran(out) => SpecStepOutcome::Ran(
                match out {
                    Some(s) => Some(s@),
                    None => None,
                },
            ),
            StepOutcome::Aborted(e) => SpecStepOutcome::Aborted(e@),
        }
    }
}

/// Mathematical model of a program state: the canonical lines, the cursor
/// (the lines still ahead of execution), and the variable environment.
#[verifier::ext_equal]
pub struct SpecProgram {
    pub nodes: Seq<SpecLine>,
    pub current: Seq<SpecLine>,
    pub vars: Map<Seq<char>, SpecPrimitive>,
}

/// A program with its execution state.
#[derive(Debug, PartialEq, Eq)]
pub struct Program {
    nodes: Node,
    current: Node,
    vars: Env,
}

impl View for Program {
    type V = SpecProgram;

    closed spec fn view(&self) -> SpecProgram {
        SpecProgram { nodes: self.nodes@, current: self.current@, vars: self.vars@ }
    }
}

/// What one execution step does to a program state, and what it reports.
/// The current entry is read and the cursor advances past it; then the
/// command runs: printing emits text; a jump relocates the cursor to the
/// found suffix of the canonical lines, or aborts if the target is missing;
/// an assignment stores a scalar, resolving an alias through the environment
/// first, or aborts if the alias names an undefined variable; a comment and
/// an empty command have no effect.
pub open spec fn spec_step(p: SpecProgram) -> (SpecProgram, SpecStepOutcome) {
    if p.current.len() == 0 {
        (p, SpecStepOutcome::Finished)
    } else {
        let cmd = p.current[0].1;
        let adv = SpecProgram { nodes: p.nodes, current: p.current.drop_first(), vars: p.vars };
        match cmd {
            SpecCommand::Print(SpecPrintOutput::Literal(s)) => (adv, SpecStepOutcome::Ran(Some(s))),
            SpecCommand::Print(SpecPrintOutput::VariableRef(id)) => if p.vars.contains_key(id) {
                (adv, SpecStepOutcome::Ran(Some(prim_text(p.vars[id]))))
            } else {
                (adv, SpecStepOutcome::Aborted(SpecRunError::UndefinedVariable(id)))
            },
            SpecCommand::Jump(n) => match spec_find_line(p.nodes, n) {
                Some(sfx) => (
                    SpecProgram { nodes: p.nodes, current: sfx, vars: p.vars },
                    SpecStepOutcome::Ran(None),
                ),
                None => (adv, SpecStepOutcome::Aborted(SpecRunError::MissingLine(n))),
            },
            SpecCommand::Assign(id, v) => match v {
                SpecPrimitive::Alias(o) => if p.vars.contains_key(o) {
                    (
                        SpecProgram {
                            nodes: p.nodes,
                            current: p.current.drop_first(),
                            vars: p.vars.insert(id, p.vars[o]),
                        },
                        SpecStepOutcome::Ran(None),
                    )
                } else {
                    (adv, SpecStepOutcome::Aborted(SpecRunError::UndefinedVariable(o)))
                },
                _ => (
                    SpecProgram {
                        nodes: p.nodes,
                        current: p.current.drop_first(),
                        vars: p.vars.insert(id, v),
                    },
                    SpecStepOutcome::Ran(None),
                ),
            },
            SpecCommand::Comment => (adv, SpecStepOutcome::Ran(None)),
            SpecCommand::Empty => (adv, SpecStepOutcome::Ran(None)),
        }
    }
}

impl Program {
    /// Wraps a list of lines as a runnable program: the cursor starts at the
    /// first entry and the environment starts empty.
    pub fn new(node: Node) -> (r: Program)
        ensures
            r@.nodes == node@,
            r@.current == node@,
            r@.vars == Map::<Seq<char>, SpecPrimitive>::empty(),
    {
        let nodes = node.duplicate();
        Program { nodes, current: node, vars: Env::new() }
    }

    /// Relocates the cursor to the first entry whose line number equals
    /// `line`, plus everything after it.  A target absent from the program is
    /// a fatal fault: the error is returned and the state is unchanged.
    pub fn jump_to_line(&mut self, line: usize) -> (r: Result<(), RunError>)
        ensures
            match spec_find_line(old(self)@.nodes, line as nat) {
                Some(sfx) => r is Ok && final(self)@.current == sfx && final(self)@.nodes == old(
                    self,
                )@.nodes && final(self)@.vars == old(self)@.vars,
                None => r == Err::<(), RunError>(RunError::MissingLine(line)) && final(self)@ == old(
                    self,
                )@,
            },
    {
        match self.nodes.find_line(line) {
            Some(node) => {
                self.current = node;
                Ok(())
            },
            None => Err(RunError::MissingLine(line)),
        }
    }

    /// Performs one execution step, as [`spec_step`] describes it, and
    /// reports what happened: `Finished` at the terminal state, `Ran` with
    /// any emitted text, or `Aborted` with the fatal fault.  The engine
    /// imposes no step budget: a program jumping to itself steps forever.
    pub fn step(&mut self) -> (r: StepOutcome)
        ensures
            final(self)@ == spec_step(old(self)@).0,
            r@ == spec_step(old(self)@).1,
    {
        let mut cur = Node::Nil;
        core::mem::swap(&mut cur, &mut self.current);
        match cur {
            Node::Nil => StepOutcome::Finished,
            Node::Link { item, next } => {
                self.current = *next;
                proof {
                    assert(old(self)@.current == seq![line_view(item)] + node_seq(*next));
                    assert(old(self)@.current.drop_first() =~= node_seq(*next));
                    assert(old(self)@.current[0] == line_view(item));
                }
                let (_num, cmd) = item;
                match cmd {
                    Command::Print(PrintOutput::Literal(text)) => StepOutcome::Ran(Some(text)),
                    Command::Print(PrintOutput::VariableRef(id)) => match self.vars.get(&id) {
                        Some(p) => {
                            let t = p.to_text();
                            StepOutcome::Ran(Some(t))
                        },
                        None => StepOutcome::Aborted(RunError::UndefinedVariable(id)),
                    },
                    Command::Jump(n) => match self.nodes.find_line(n) {
                        Some(node) => {
                            self.current = node;
                            StepOutcome::Ran(None)
                        },
                        None => StepOutcome::Aborted(RunError::MissingLine(n)),
                    },
                    Command::Assign(id, value) => match value {
                        Primitive::Alias(o) => match self.vars.get(&o) {
                            Some(p) => {
                                let v = p.duplicate();
                                self.vars.insert(id, v);
                                StepOutcome::Ran(None)
                            },
                            None => StepOutcome::Aborted(RunError::UndefinedVariable(o)),
                        },
                        _ => {
                            self.vars.insert(id, value);
                            StepOutcome::Ran(None)
                        },
                    },
                    Command::Comment => StepOutcome::Ran(None),
                    Command::Empty => StepOutcome::Ran(None),
                }
            },
        }
    }
}

/// The views of a sequence of parsed lines.
pub open spec fn lines_view(v: Seq<Line>) -> Seq<SpecLine> {
    v.map_values(|l: Line| line_view(l))
}

/// Continuation of a newline-separated program read: a separator followed by
/// a further line, repeated until either is missing.
pub open spec fn spec_read_rest(s: Seq<char>, i: int) -> (int, Seq<SpecLine>)
    decreases s.len() - i
        when 0 <= i <= s.len()
        via spec_read_rest_decreases
{
    if i < s.len() && s[i] == '\n' {
        match spec_parse_line(s, i + 1) {
            Some((j, l)) => {
                let r = spec_read_rest(s, j);
                (r.0, seq![l] + r.1)
            },
            None => (i, seq![]),
        }
    } else {
        (i, seq![])
    }
}

#[via_fn]
proof fn spec_read_rest_decreases(s: Seq<char>, i: int) {
    if i < s.len() && s[i] == '\n' {
        lemma_parse_line_bounds(s, i + 1);
    }
}

/// The lines of a newline-separated program text, in input order, together
/// with the position where reading stopped: reading stops at the first point
/// where no further line parses, and what was read to that point forms the
/// program.
pub open spec fn spec_read_program(s: Seq<char>, i: int) -> (int, Seq<SpecLine>) {
    match spec_parse_line(s, i) {
        Some((j, l)) => {
            let r = spec_read_rest(s, j);
            (r.0, seq![l] + r.1)
        },
        None => (i, seq![]),
    }
}

fn read_rest(s: &str, i: usize) -> (r: (usize, Vec<Line>))
    requires
        i <= s@.len(),
    ensures
        r.0 as int == spec_read_rest(s@, i as int).0,
        lines_view(r.1@) == spec_read_rest(s@, i as int).1,
        i <= r.0 <= s@.len(),
    decreases s@.len() - i,
{
    let n = s.unicode_len();
    if i < n && s.get_char(i) == '\n' {
        match parse_line_at(s, i + 1) {
            Ok((j, l)) => {
                let (k, mut rest) = read_rest(s, j);
                let ghost prev = rest@;
                rest.insert(0, l);
                proof {
                    assert(rest@ =~= seq![l] + prev);
                    assert(lines_view(rest@) =~= seq![line_view(l)] + lines_view(prev));
                }
                (k, rest)
            },
            Err(_) => {
                let empty: Vec<Line> = Vec::new();
                proof {
                    assert(lines_view(empty@) =~= Seq::<SpecLine>::empty());
                }
                (i, empty)
            },
        }
    } else {
        let empty: Vec<Line> = Vec::new();
        proof {
            assert(lines_view(empty@) =~= Seq::<SpecLine>::empty());
        }
        (i, empty)
    }
}

fn read_lines(s: &str) -> (r: (usize, Vec<Line>))
    ensures
        r.0 as int == spec_read_program(s@, 0).0,
        lines_view(r.1@) == spec_read_program(s@, 0).1,
{
    match parse_line_at(s, 0) {
        Ok((j, l)) => {
            let (k, mut rest) = read_rest(s, j);
            let ghost prev = rest@;
            rest.insert(0, l);
            proof {
                assert(rest@ =~= seq![l] + prev);
                assert(lines_view(rest@) =~= seq![line_view(l)] + lines_view(prev));
            }
            (k, rest)
        },
        Err(_) => {
            let empty: Vec<Line> = Vec::new();
            proof {
                assert(lines_view(empty@) =~= Seq::<SpecLine>::empty());
            }
            (0, empty)
        },
    }
}

impl Program {
    /// Parses newline-separated source text, in file order, into a runnable
    /// program.  No trailing separator is required, and no validation of
    /// line-number uniqueness or ordering is performed.
    pub fn from_source(s: &str) -> (r: Program)
        ensures
            r@.nodes == spec_read_program(s@, 0).1,
            r@.current == spec_read_program(s@, 0).1,
            r@.vars == Map::<Seq<char>, SpecPrimitive>::empty(),
    {
        let (_end, mut lines) = read_lines(s);
        let ghost all = lines_view(lines@);
        let mut node = Node::Nil;
        while lines.len() > 0
            invariant
                node@ + lines_view(lines@) == all,
            decreases lines.len(),
        {
            let ghost before = lines@;
            let line = lines.remove(0);
            node.push(line);
            proof {
                assert(lines@ =~= before.drop_first());
                assert(node@ + lines_view(lines@) =~= all);
            }
        }
        proof {
            assert(node@ =~= all);
        }
        let nodes = node.duplicate();
        Program { nodes, current: node, vars: Env::new() }
    }
}

/// The program state after `n` execution steps.
pub open spec fn spec_step_n(p: SpecProgram, n: nat) -> SpecProgram
    decreases n,
{
    if n == 0 {
        p
    } else {
        spec_step(spec_step_n(p, (n - 1) as nat)).0
    }
}

/// A program whose single line jumps to its own line number never reaches the
/// terminal state: after any number of steps the state is exactly the initial
/// one, and the next step still makes progress.  The engine imposes no step
/// budget and detects no cycles; a bound can only come from outside.
pub proof fn lemma_self_jump_never_finishes(p: SpecProgram, n: nat)
    requires
        p.current == p.nodes,
        p.nodes.len() == 1,
        p.nodes[0].1 == SpecCommand::Jump(p.nodes[0].0),
    ensures
        spec_step_n(p, n) == p,
        spec_step(spec_step_n(p, n)).1 == SpecStepOutcome::Ran(None::<Seq<char>>),
    decreases n,
{
    assert(spec_find_line(p.nodes, p.nodes[0].0) == Some(p.nodes));
    assert(spec_step(p).0 =~= p);
    if n > 0 {
        lemma_self_jump_never_finishes(p, (n - 1) as nat);
    }
}

/// Only scalars are ever stored: an environment that holds no alias still
/// holds none after a step, because an alias assignment stores the value the
/// alias names, never the alias itself.
pub open spec fn env_scalar_only(vars: Map<Seq<char>, SpecPrimitive>) -> bool {
    forall|k: Seq<char>| vars.contains_key(k) ==> !(#[trigger] vars[k] is Alias)
}

pub proof fn lemma_step_preserves_scalar_env(p: SpecProgram)
    requires
        env_scalar_only(p.vars),
    ensures
        env_scalar_only(spec_step(p).0.vars),
{
}

} // verus!
