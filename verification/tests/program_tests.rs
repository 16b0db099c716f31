use tiny_basic::basic::{Program, RunError, StepOutcome};
use tiny_basic::commands::{Command, Primitive, PrintOutput};
use tiny_basic::node::Node;

#[test]
fn it_can_create_a_linked_list_for_a_program() {
    let mut node = Node::Link {
        item: (
            10,
            Command::Print(PrintOutput::Literal(String::from("Hello world"))),
        ),
        next: Box::new(Node::Nil),
    };
    node.push((20, Command::Jump(10)));

    let expected = Node::Link {
        item: (
            10,
            Command::Print(PrintOutput::Literal(String::from("Hello world"))),
        ),
        next: Box::new(Node::Link {
            item: (20, Command::Jump(10)),
            next: Box::new(Node::Nil),
        }),
    };
    assert_eq!(node, expected);
}

#[test]
fn it_finds_a_node_by_line_number() {
    let mut node = Node::Link {
        item: (
            10,
            Command::Print(PrintOutput::Literal(String::from("Hello world"))),
        ),
        next: Box::new(Node::Nil),
    };
    node.push((
        20,
        Command::Print(PrintOutput::Literal(String::from("I'm a second line"))),
    ));
    node.push((
        30,
        Command::Print(PrintOutput::Literal(String::from("Still printing..."))),
    ));
    node.push((40, Command::Jump(10)));

    let expected: Option<Node> = Some(Node::Link {
        item: (
            30,
            Command::Print(PrintOutput::Literal(String::from("Still printing..."))),
        ),
        next: Box::new(Node::Link {
            item: (40, Command::Jump(10)),
            next: Box::new(Node::Nil),
        }),
    });
    let result = node.find_line(30);
    assert_eq!(expected, result);
}

#[test]
fn it_reads_a_program() {
    let lines = "10 PRINT \"Hello world\"\n20 GO TO 10";
    let expected_node = Node::Link {
        item: (
            10,
            Command::Print(PrintOutput::Literal(String::from("Hello world"))),
        ),
        next: Box::new(Node::Link {
            item: (20, Command::Jump(10)),
            next: Box::new(Node::Nil),
        }),
    };
    let expected = Program::new(expected_node);
    let result = Program::from_source(lines);
    assert_eq!(expected, result);
}

#[test]
fn it_finds_no_node_for_an_absent_line_number() {
    let node = Node::Link {
        item: (10, Command::Comment),
        next: Box::new(Node::Nil),
    };
    assert_eq!(None, node.find_line(20));
}

#[test]
fn it_jumps_to_an_existing_line() {
    let mut program = Program::from_source("10 REM a\n20 REM b");
    assert_eq!(Ok(()), program.jump_to_line(20));
}

#[test]
fn it_refuses_a_jump_to_a_missing_line() {
    let mut program = Program::from_source("10 REM a\n20 REM b");
    assert_eq!(Err(RunError::MissingLine(30)), program.jump_to_line(30));
}

#[test]
fn it_runs_a_program_and_prints_a_variable() {
    let mut program = Program::from_source("10 LET a=1\n20 PRINT a");
    let mut outputs: Vec<String> = Vec::new();
    let mut steps = 0;
    loop {
        match program.step() {
            StepOutcome::Finished => break,
            StepOutcome::Ran(Some(text)) => outputs.push(text),
            StepOutcome::Ran(None) => {}
            StepOutcome::Aborted(e) => panic!("{}", e.message()),
        }
        steps += 1;
        assert!(steps < 100);
    }
    assert_eq!(vec![String::from("1")], outputs);
}

#[test]
fn it_prints_a_text_variable_and_a_literal() {
    let mut program = Program::from_source("10 LET a$=\"hi\"\n20 PRINT a$\n30 PRINT \"done\"");
    let mut outputs: Vec<String> = Vec::new();
    let mut steps = 0;
    loop {
        match program.step() {
            StepOutcome::Finished => break,
            StepOutcome::Ran(Some(text)) => outputs.push(text),
            StepOutcome::Ran(None) => {}
            StepOutcome::Aborted(e) => panic!("{}", e.message()),
        }
        steps += 1;
        assert!(steps < 100);
    }
    assert_eq!(vec![String::from("hi"), String::from("done")], outputs);
}

#[test]
fn it_copies_a_value_through_an_alias() {
    let mut program = Program::from_source("10 LET a=7\n20 LET b=a\n30 PRINT b");
    let mut outputs: Vec<String> = Vec::new();
    let mut steps = 0;
    loop {
        match program.step() {
            StepOutcome::Finished => break,
            StepOutcome::Ran(Some(text)) => outputs.push(text),
            StepOutcome::Ran(None) => {}
            StepOutcome::Aborted(e) => panic!("{}", e.message()),
        }
        steps += 1;
        assert!(steps < 100);
    }
    assert_eq!(vec![String::from("7")], outputs);
}

#[test]
fn it_overwrites_a_reassigned_variable() {
    let mut program = Program::from_source("10 LET a=1\n20 LET a=2\n30 PRINT a");
    let mut outputs: Vec<String> = Vec::new();
    let mut steps = 0;
    loop {
        match program.step() {
            StepOutcome::Finished => break,
            StepOutcome::Ran(Some(text)) => outputs.push(text),
            StepOutcome::Ran(None) => {}
            StepOutcome::Aborted(e) => panic!("{}", e.message()),
        }
        steps += 1;
        assert!(steps < 100);
    }
    assert_eq!(vec![String::from("2")], outputs);
}

#[test]
fn it_prints_a_negative_integer_in_decimal() {
    let mut program = Program::from_source("10 LET a=-5\n20 PRINT a");
    let mut outputs: Vec<String> = Vec::new();
    let mut steps = 0;
    loop {
        match program.step() {
            StepOutcome::Finished => break,
            StepOutcome::Ran(Some(text)) => outputs.push(text),
            StepOutcome::Ran(None) => {}
            StepOutcome::Aborted(e) => panic!("{}", e.message()),
        }
        steps += 1;
        assert!(steps < 100);
    }
    assert_eq!(vec![String::from("-5")], outputs);
}

#[test]
fn it_never_finishes_a_self_jump() {
    let mut program = Program::from_source("10 GO TO 10");
    for _ in 0..1000 {
        match program.step() {
            StepOutcome::Ran(None) => {}
            other => panic!("unexpected outcome: {:?}", other),
        }
    }
}

#[test]
fn it_aborts_on_a_missing_jump_target() {
    let mut program = Program::from_source("10 GO TO 99");
    let mut aborted = false;
    for _ in 0..10 {
        match program.step() {
            StepOutcome::Aborted(e) => {
                assert_eq!(RunError::MissingLine(99), e);
                aborted = true;
                break;
            }
            StepOutcome::Finished => panic!("finished instead of aborting"),
            StepOutcome::Ran(_) => {}
        }
    }
    assert!(aborted);
}

#[test]
fn it_aborts_on_printing_an_undefined_variable() {
    let mut program = Program::from_source("10 PRINT a");
    let outcome = program.step();
    assert_eq!(
        StepOutcome::Aborted(RunError::UndefinedVariable(String::from("a"))),
        outcome
    );
}

#[test]
fn it_aborts_on_an_alias_to_an_undefined_variable() {
    let mut program = Program::from_source("10 LET a=b");
    let outcome = program.step();
    assert_eq!(
        StepOutcome::Aborted(RunError::UndefinedVariable(String::from("b"))),
        outcome
    );
}

#[test]
fn it_finishes_an_empty_program_at_once() {
    let mut program = Program::from_source("");
    assert_eq!(StepOutcome::Finished, program.step());
    assert_eq!(StepOutcome::Finished, program.step());
}

#[test]
fn it_ignores_comments_and_empty_commands() {
    let mut program = Program::from_source("10 REM note\n20  whatever");
    assert_eq!(StepOutcome::Ran(None), program.step());
    assert_eq!(StepOutcome::Ran(None), program.step());
    assert_eq!(StepOutcome::Finished, program.step());
}

#[test]
fn it_resumes_after_a_jump_target() {
    let mut program = Program::from_source("10 GO TO 30\n20 PRINT \"skipped\"\n30 PRINT \"a\"\n40 PRINT \"b\"");
    let mut outputs: Vec<String> = Vec::new();
    let mut steps = 0;
    loop {
        match program.step() {
            StepOutcome::Finished => break,
            StepOutcome::Ran(Some(text)) => outputs.push(text),
            StepOutcome::Ran(None) => {}
            StepOutcome::Aborted(e) => panic!("{}", e.message()),
        }
        steps += 1;
        assert!(steps < 100);
    }
    assert_eq!(vec![String::from("a"), String::from("b")], outputs);
}

#[test]
fn it_describes_runtime_faults() {
    assert_eq!(
        "Cannot jump to line 99, it does not exist",
        RunError::MissingLine(99).message()
    );
    assert_eq!(
        "Variable x is not defined",
        RunError::UndefinedVariable(String::from("x")).message()
    );
}

#[test]
fn it_renders_stored_values_as_text() {
    assert_eq!("-12", Primitive::Integer(-12).to_text());
    assert_eq!("0", Primitive::Integer(0).to_text());
    assert_eq!(
        "-9223372036854775808",
        Primitive::Integer(i64::MIN).to_text()
    );
    assert_eq!("hi", Primitive::Text(String::from("hi")).to_text());
}
