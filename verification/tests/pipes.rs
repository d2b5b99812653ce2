use hug_shell::builtin::Builtin;
use hug_shell::command::{Command, CommandKind};
use hug_shell::lexer::{Token, TokenKind};
use hug_shell::system::{Action, Entry, Reply, Step};
use hug_shell::typesystem::{FileStatus, ProcessOutput, Type};

fn ran(stdout: &str) -> Reply {
    Reply::Output(ProcessOutput {
        code: Some(0),
        stdout: stdout.as_bytes().to_vec(),
        stderr: Vec::new(),
    })
}

fn spawn(program: &str, args: &[&str], input: Option<&str>) -> Step {
    Step::Pending(Action::Spawn {
        program: program.to_string(),
        args: args.iter().map(|a| a.to_string()).collect(),
        input: input.map(|text| text.to_string()),
    })
}

#[test]
fn pipes_test_run() {
    let command = Command::new(CommandKind::Pipe {
        source: Box::new(Command {
            kind: CommandKind::External {
                name: Token {
                    value: "echo".to_string(),
                    kind: TokenKind::Word,
                },
                args: vec![Command::new(CommandKind::String(
                    "Hello, world!".to_string(),
                ))],
            },
        }),
        destination: Box::new(Command {
            kind: CommandKind::External {
                name: Token {
                    value: "grep".to_string(),
                    kind: TokenKind::Word,
                },
                args: vec![Command::new(CommandKind::String("world".to_string()))],
            },
        }),
    });
    let mut replies = Vec::new();
    assert_eq!(
        command.run(&replies),
        spawn("echo", &["Hello, world!"], None)
    );
    replies.push(ran("Hello, world!\n"));
    assert_eq!(
        command.run(&replies),
        spawn("grep", &["world"], Some("Hello, world!\n"))
    );
    replies.push(ran("Hello, world!\n"));
    let output = command.run(&replies);
    match output {
        Step::Finished(Type::Output(output)) => {
            assert_eq!(String::from_utf8(output.stdout).unwrap(), "Hello, world!\n");
        }
        _ => panic!("Expected Output, got {:?}", output),
    }
}

#[test]
fn test_run_with_multiple_pipes() {
    let command = Command::new(CommandKind::Pipe {
        source: Box::new(Command {
            kind: CommandKind::Pipe {
                source: Box::new(Command {
                    kind: CommandKind::String("Hello, world!\n".into()),
                }),
                destination: Box::new(Command {
                    kind: CommandKind::External {
                        name: Token {
                            value: "grep".into(),
                            kind: TokenKind::Word,
                        },
                        args: vec![Command::new(CommandKind::String("world".into()))],
                    },
                }),
            },
        }),
        destination: Box::new(Command {
            kind: CommandKind::External {
                name: Token {
                    value: "wc".into(),
                    kind: TokenKind::Word,
                },
                args: vec![],
            },
        }),
    });
    let mut replies = Vec::new();
    // The string reaches grep bare: without quotes and without colour.
    assert_eq!(
        command.run(&replies),
        spawn("grep", &["world"], Some("Hello, world!\n"))
    );
    replies.push(ran("Hello, world!\n"));
    assert_eq!(
        command.run(&replies),
        spawn("wc", &[], Some("Hello, world!\n"))
    );
    replies.push(ran("      1       2      14\n"));
    let output = command.run(&replies);
    match output {
        Step::Finished(Type::Output(output)) => {
            assert_eq!(
                String::from_utf8(output.stdout).unwrap(),
                "      1       2      14\n"
            );
        }
        _ => panic!("Expected Output, got {:?}", output),
    }
}

#[test]
fn pipe_of_echo_into_grep() {
    let stage = |name: &str| {
        Command::new(CommandKind::External {
            name: Token {
                value: name.to_string(),
                kind: TokenKind::Word,
            },
            args: vec![Command::new(CommandKind::String("hi".to_string()))],
        })
    };
    let command = Command::new(CommandKind::Pipe {
        source: Box::new(stage("echo")),
        destination: Box::new(stage("grep")),
    });
    let replies = vec![ran("hi\n"), ran("hi\n")];
    match command.run(&replies) {
        Step::Finished(Type::Output(output)) => {
            assert!(String::from_utf8(output.stdout).unwrap().contains("hi"));
        }
        step => panic!("Expected Output, got {:?}", step),
    }
    // More replies than the pipe reads change nothing.
    let longer = vec![ran("hi\n"), ran("hi\n"), Reply::Done, ran("no")];
    assert_eq!(command.run(&longer), command.run(&replies));
    let (_, next) = command.run_pipe(&longer, 0);
    assert_eq!(next, 2);
}

#[test]
fn pipe_of_a_listing_hands_on_bare_names() {
    let command = Command::new(CommandKind::Pipe {
        source: Box::new(Command::new(CommandKind::Builtin {
            builtin: Builtin::Ls,
            args: vec![],
        })),
        destination: Box::new(Command::new(CommandKind::External {
            name: Token {
                value: "grep".to_string(),
                kind: TokenKind::Word,
            },
            args: vec![Command::new(CommandKind::String("x".to_string()))],
        })),
    });
    let listing = Reply::Entries(vec![
        Entry {
            path: "./x.rs".to_string(),
            status: FileStatus::File { executable: false },
        },
        Entry {
            path: "./y".to_string(),
            status: FileStatus::Directory,
        },
    ]);
    assert_eq!(
        command.run(&vec![listing]),
        spawn("grep", &["x"], Some("x.rs\ny"))
    );
}

#[test]
fn pipe_into_a_literal_gives_the_literal() {
    let command = Command::new(CommandKind::Pipe {
        source: Box::new(Command::new(CommandKind::Integer(1))),
        destination: Box::new(Command::new(CommandKind::String("two".to_string()))),
    });
    assert_eq!(
        command.run(&Vec::new()),
        Step::Finished(Type::String("two".to_string()))
    );
}

#[test]
fn pipe_stops_at_exit() {
    let command = Command::new(CommandKind::Pipe {
        source: Box::new(Command::new(CommandKind::Builtin {
            builtin: Builtin::Exit,
            args: vec![],
        })),
        destination: Box::new(Command::new(CommandKind::Builtin {
            builtin: Builtin::Pwd,
            args: vec![],
        })),
    });
    assert_eq!(command.run(&Vec::new()), Step::Pending(Action::Exit));
    assert_eq!(
        command.run(&vec![Reply::Done, Reply::Done]),
        Step::Pending(Action::Exit)
    );
}

#[test]
fn pipe_source_error_is_handed_on_as_text() {
    let command = Command::new(CommandKind::Pipe {
        source: Box::new(Command::new(CommandKind::Builtin {
            builtin: Builtin::Pwd,
            args: vec![Command::new(CommandKind::Integer(1))],
        })),
        destination: Box::new(Command::new(CommandKind::External {
            name: Token {
                value: "cat".to_string(),
                kind: TokenKind::Word,
            },
            args: vec![],
        })),
    });
    assert_eq!(
        command.run(&Vec::new()),
        spawn(
            "cat",
            &[],
            Some("Error: Too many arguments\nExited With status 1")
        )
    );
}
