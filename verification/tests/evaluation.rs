use hug_shell::builtin::Builtin;
use hug_shell::command::{Command, CommandKind};
use hug_shell::evaluation::Evaluation;
use hug_shell::lexer::{Token, TokenKind};
use hug_shell::parser::parse_line;
use hug_shell::system::{Action, Entry, Failure, FailureKind, Reply, Step};
use hug_shell::typesystem::{FileStatus, ProcessOutput, Type};

// Drives an evaluation with the given replies, one for each action, and
// gives the actions that were asked for and the value at the end.
fn drive(command: &Command, replies: Vec<Reply>) -> (Vec<Action>, Type) {
    let (mut evaluation, mut step) = Evaluation::start(command).unwrap();
    let mut actions = Vec::new();
    let mut replies = replies.into_iter();
    loop {
        match step {
            Step::Finished(value) => {
                assert!(replies.next().is_none(), "a reply was left over");
                return (actions, value);
            }
            Step::Pending(action) => {
                actions.push(action);
                (evaluation, step) = evaluation.resume(replies.next().unwrap());
            }
        }
    }
}

fn ran(stdout: &str) -> Reply {
    Reply::Output(ProcessOutput {
        code: Some(0),
        stdout: stdout.as_bytes().to_vec(),
        stderr: Vec::new(),
    })
}

#[test]
fn evaluation_of_a_literal_takes_no_action() {
    let command = Command::new(CommandKind::Boolean(false));
    let (actions, value) = drive(&command, Vec::new());
    assert_eq!(actions, Vec::<Action>::new());
    assert_eq!(value, Type::Boolean(false));
}

#[test]
fn evaluation_of_a_line() {
    let commands = parse_line("ls | grep rs > 'found.txt' ; cd /tmp ; pwd").unwrap();
    assert_eq!(commands.len(), 3);

    let (actions, value) = drive(
        &commands[0],
        vec![
            Reply::Entries(vec![
                Entry {
                    path: "./main.rs".to_string(),
                    status: FileStatus::File { executable: false },
                },
                Entry {
                    path: "./notes".to_string(),
                    status: FileStatus::Directory,
                },
            ]),
            ran("main.rs\n"),
            Reply::Done,
        ],
    );
    assert_eq!(
        actions,
        vec![
            Action::ListDir {
                path: ".".to_string()
            },
            Action::Spawn {
                program: "grep".to_string(),
                args: vec!["rs".to_string()],
                input: Some("main.rs\nnotes".to_string()),
            },
            Action::WriteFile {
                path: "found.txt".to_string(),
                contents: "main.rs\n".to_string(),
            },
        ]
    );
    assert_eq!(value, Type::Null);

    let (actions, value) = drive(&commands[1], vec![Reply::Done]);
    assert_eq!(
        actions,
        vec![Action::ChangeDir {
            path: "/tmp".to_string()
        }]
    );
    assert_eq!(value, Type::Null);

    let (actions, value) = drive(
        &commands[2],
        vec![Reply::Directory(Entry {
            path: "/tmp".to_string(),
            status: FileStatus::Directory,
        })],
    );
    assert_eq!(actions, vec![Action::CurrentDir]);
    assert_eq!(value.to_undecorated_string(), "/tmp");
}

#[test]
fn evaluation_of_a_line_with_a_syntax_error() {
    let commands = parse_line("pwd ; ls |").unwrap();
    assert_eq!(commands.len(), 2);
    let (actions, value) = drive(&commands[1], Vec::new());
    assert_eq!(actions, Vec::<Action>::new());
    assert_eq!(
        value,
        Type::Error {
            message: "Unexpected end of input".to_string(),
            code: 200
        }
    );
}

#[test]
fn evaluation_agrees_with_run() {
    let command = Command::new(CommandKind::Pipe {
        source: Box::new(Command::new(CommandKind::External {
            name: Token {
                value: "echo".to_string(),
                kind: TokenKind::Word,
            },
            args: vec![Command::new(CommandKind::String("hi".to_string()))],
        })),
        destination: Box::new(Command::new(CommandKind::External {
            name: Token {
                value: "grep".to_string(),
                kind: TokenKind::Word,
            },
            args: vec![Command::new(CommandKind::String("hi".to_string()))],
        })),
    });
    let (evaluation, first) = Evaluation::start(&command).unwrap();
    assert_eq!(first, command.run(&Vec::new()));
    let (evaluation, second) = evaluation.resume(ran("hi\n"));
    assert_eq!(second, command.run(&vec![ran("hi\n")]));
    let (_, last) = evaluation.resume(Reply::Failed(Failure {
        kind: FailureKind::NotFound,
        message: "No such file or directory (os error 2)".to_string(),
    }));
    assert_eq!(
        last,
        Step::Finished(Type::Error {
            message: "No such file or directory (os error 2)".to_string(),
            code: 50
        })
    );
}

#[test]
fn evaluation_does_not_start_on_arguments_that_are_no_literals() {
    let command = Command::new(CommandKind::Builtin {
        builtin: Builtin::Cd,
        args: vec![Command::new(CommandKind::Builtin {
            builtin: Builtin::Pwd,
            args: vec![],
        })],
    });
    assert!(Evaluation::start(&command).is_none());
}
