use hug_shell::builtin::Builtin;
use hug_shell::command::{Command, CommandKind};
use hug_shell::lexer::{Token, TokenKind};
use hug_shell::parser::Parser;

#[test]
fn test_parse_cd() {
    let tokens = vec![Token {
        value: "cd".to_string(),
        kind: TokenKind::Word,
    }];

    let commands = Parser::new(&tokens).parse();
    match commands[0].kind {
        CommandKind::Builtin {
            ref builtin,
            ref args,
        } => {
            assert_eq!(*builtin, Builtin::Cd);
            assert_eq!(*args, Vec::<Command>::new());
        }
        _ => panic!("Expected BuiltIn"),
    }
}

#[test]
fn test_parse_cd_with_one_arg() {
    let tokens = vec![
        Token {
            value: "cd".to_string(),
            kind: TokenKind::Word,
        },
        Token {
            value: "/home".to_string(),
            kind: TokenKind::Word,
        },
    ];

    let commands = Parser::new(&tokens).parse();
    match commands[0].kind {
        CommandKind::Builtin {
            ref builtin,
            ref args,
        } => {
            assert_eq!(*builtin, Builtin::Cd);
            assert_eq!(
                *args,
                vec![Command::new(CommandKind::String("/home".to_string()))]
            );
        }
        _ => panic!("Expected BuiltIn"),
    }
}

#[test]
fn test_parse_cd_with_multiple_args() {
    let tokens = vec![
        Token {
            value: "cd".to_string(),
            kind: TokenKind::Word,
        },
        Token {
            value: "/home".to_string(),
            kind: TokenKind::Word,
        },
        Token {
            value: "arg2".to_string(),
            kind: TokenKind::Word,
        },
    ];

    let commands = Parser::new(&tokens).parse();
    match commands[0].kind {
        CommandKind::Builtin {
            ref builtin,
            ref args,
        } => {
            assert_eq!(*builtin, Builtin::Cd);
            assert_eq!(
                *args,
                vec![
                    Command::new(CommandKind::String("/home".to_string())),
                    Command::new(CommandKind::String("arg2".to_string()))
                ]
            );
        }
        _ => panic!("Expected BuiltIn"),
    }
}

#[test]
fn test_parse_exit() {
    let tokens = vec![Token {
        value: "exit".to_string(),
        kind: TokenKind::Word,
    }];

    let commands = Parser::new(&tokens).parse();
    match commands[0].kind {
        CommandKind::Builtin {
            ref builtin,
            ref args,
        } => {
            assert_eq!(*builtin, Builtin::Exit);
            assert_eq!(*args, Vec::<Command>::new());
        }
        _ => panic!("Expected BuiltIn"),
    }
}

#[test]
fn test_parse_exit_with_one_arg() {
    let tokens = vec![
        Token {
            value: "exit".to_string(),
            kind: TokenKind::Word,
        },
        Token {
            value: "1".to_string(),
            kind: TokenKind::Integer,
        },
    ];

    let commands = Parser::new(&tokens).parse();
    match commands[0].kind {
        CommandKind::Builtin {
            ref builtin,
            ref args,
        } => {
            assert_eq!(*builtin, Builtin::Exit);
            assert_eq!(*args, vec![Command::new(CommandKind::Integer(1))]);
        }
        _ => panic!("Expected BuiltIn"),
    }
}

#[test]
fn test_parse_exit_with_multiple_args() {
    let tokens = vec![
        Token {
            value: "exit".to_string(),
            kind: TokenKind::Word,
        },
        Token {
            value: "1".to_string(),
            kind: TokenKind::Integer,
        },
        Token {
            value: "2".to_string(),
            kind: TokenKind::Integer,
        },
    ];

    let commands = Parser::new(&tokens).parse();
    match commands[0].kind {
        CommandKind::Builtin {
            ref builtin,
            ref args,
        } => {
            assert_eq!(*builtin, Builtin::Exit);
            assert_eq!(
                *args,
                vec![
                    Command::new(CommandKind::Integer(1)),
                    Command::new(CommandKind::Integer(2))
                ]
            );
        }
        _ => panic!("Expected BuiltIn"),
    }
}

#[test]
fn test_parse_ls() {
    let tokens = vec![Token {
        value: "ls".to_string(),
        kind: TokenKind::Word,
    }];

    let commands = Parser::new(&tokens).parse();
    match commands[0].kind {
        CommandKind::Builtin {
            ref builtin,
            ref args,
        } => {
            assert_eq!(*builtin, Builtin::Ls);
            assert_eq!(*args, Vec::<Command>::new());
        }
        _ => panic!("Expected BuiltIn"),
    }
}

#[test]
fn test_parse_ls_with_one_arg() {
    let tokens = vec![
        Token {
            value: "ls".to_string(),
            kind: TokenKind::Word,
        },
        Token {
            value: "arg1".to_string(),
            kind: TokenKind::Word,
        },
    ];

    let commands = Parser::new(&tokens).parse();
    match commands[0].kind {
        CommandKind::Builtin {
            ref builtin,
            ref args,
        } => {
            assert_eq!(*builtin, Builtin::Ls);
            assert_eq!(
                *args,
                vec![Command::new(CommandKind::String("arg1".to_string()))]
            );
        }
        _ => panic!("Expected BuiltIn"),
    }
}

#[test]
fn test_parse_ls_with_multiple_args() {
    let tokens = vec![
        Token {
            value: "ls".to_string(),
            kind: TokenKind::Word,
        },
        Token {
            value: "arg1".to_string(),
            kind: TokenKind::Word,
        },
        Token {
            value: "arg2".to_string(),
            kind: TokenKind::Word,
        },
    ];

    let commands = Parser::new(&tokens).parse();
    match commands[0].kind {
        CommandKind::Builtin {
            ref builtin,
            ref args,
        } => {
            assert_eq!(*builtin, Builtin::Ls);
            assert_eq!(
                *args,
                vec![
                    Command::new(CommandKind::String("arg1".to_string())),
                    Command::new(CommandKind::String("arg2".to_string()))
                ]
            );
        }
        _ => panic!("Expected BuiltIn"),
    }
}

#[test]
fn test_parse_string() {
    let tokens = vec![Token {
        value: "hello".to_string(),
        kind: TokenKind::String,
    }];

    let commands = Parser::new(&tokens).parse();
    match commands[0].kind {
        CommandKind::String(ref value) => {
            assert_eq!(value, "hello");
        }
        _ => panic!("Expected String"),
    }
}

#[test]
fn test_parse_boolean() {
    let tokens = vec![Token {
        value: "true".to_string(),
        kind: TokenKind::Boolean,
    }];

    let commands = Parser::new(&tokens).parse();
    match commands[0].kind {
        CommandKind::Boolean(value) => {
            assert_eq!(value, true);
        }
        _ => panic!("Expected Boolean"),
    }

    let tokens = vec![Token {
        value: "false".to_string(),
        kind: TokenKind::Boolean,
    }];

    let commands = Parser::new(&tokens).parse();
    match commands[0].kind {
        CommandKind::Boolean(value) => {
            assert_eq!(value, false);
        }
        _ => panic!("Expected Boolean"),
    }
}

#[test]
fn test_parse_external() {
    let tokens = vec![Token {
        value: "helloworld".to_string(),
        kind: TokenKind::Word,
    }];

    let commands = Parser::new(&tokens).parse();
    match commands[0].kind {
        CommandKind::External { ref name, ref args } => {
            assert_eq!(
                *name,
                Token {
                    value: "helloworld".to_string(),
                    kind: TokenKind::Word,
                }
            );
            assert_eq!(*args, Vec::<Command>::new());
        }
        _ => panic!("Expected External"),
    }

    let tokens = vec![
        Token {
            value: "helloworld".to_string(),
            kind: TokenKind::Word,
        },
        Token {
            value: "arg1".to_string(),
            kind: TokenKind::Word,
        },
        Token {
            value: "arg2".to_string(),
            kind: TokenKind::Word,
        },
    ];

    let commands = Parser::new(&tokens).parse();
    match commands[0].kind {
        CommandKind::External { ref name, ref args } => {
            assert_eq!(
                *name,
                Token {
                    value: "helloworld".to_string(),
                    kind: TokenKind::Word,
                }
            );
            assert_eq!(
                *args,
                vec![
                    Command::new(CommandKind::String("arg1".to_string())),
                    Command::new(CommandKind::String("arg2".to_string()))
                ]
            );
        }
        _ => panic!("Expected External"),
    }
}

#[test]
fn test_parse_empty() {
    let tokens: Vec<Token> = Vec::new();
    let commands = Parser::new(&tokens).parse();
    assert_eq!(commands.len(), 0);
}

#[test]
fn test_parse_redirect() {
    let tokens = vec![
        Token {
            value: "ls".to_string(),
            kind: TokenKind::Word,
        },
        Token {
            value: ">".to_string(),
            kind: TokenKind::GreaterThan,
        },
        Token {
            value: "output.txt".to_string(),
            kind: TokenKind::String,
        },
    ];

    let commands = Parser::new(&tokens).parse();
    match commands[0].kind {
        CommandKind::Redirect {
            ref source,
            ref destination,
        } => {
            assert_eq!(
                **source,
                Command {
                    kind: CommandKind::Builtin {
                        builtin: Builtin::Ls,
                        args: Vec::new()
                    },
                }
            );
            assert_eq!(
                **destination,
                Command {
                    kind: CommandKind::String("output.txt".to_string()),
                }
            );
        }
        _ => panic!("Expected Redirect"),
    }
}

#[test]
fn test_parse_redirect_from_string() {
    let tokens = vec![
        Token {
            value: "ls".to_string(),
            kind: TokenKind::String,
        },
        Token {
            value: ">".to_string(),
            kind: TokenKind::GreaterThan,
        },
        Token {
            value: "output.txt".to_string(),
            kind: TokenKind::String,
        },
    ];

    let commands = Parser::new(&tokens).parse();
    match commands[0].kind {
        CommandKind::Redirect {
            ref source,
            ref destination,
        } => {
            assert_eq!(
                **source,
                Command {
                    kind: CommandKind::String("ls".to_string()),
                }
            );
            assert_eq!(
                **destination,
                Command {
                    kind: CommandKind::String("output.txt".to_string()),
                }
            );
        }
        _ => panic!("Expected Redirect"),
    }
}

#[test]
fn test_parse_pipe() {
    let tokens = vec![
        Token {
            value: "ls".to_string(),
            kind: TokenKind::Word,
        },
        Token {
            value: "|".to_string(),
            kind: TokenKind::Pipe,
        },
        Token {
            value: "grep".to_string(),
            kind: TokenKind::Word,
        },
    ];

    let commands = Parser::new(&tokens).parse();
    match commands[0].kind {
        CommandKind::Pipe {
            ref source,
            ref destination,
        } => {
            assert_eq!(
                **source,
                Command {
                    kind: CommandKind::Builtin {
                        builtin: Builtin::Ls,
                        args: Vec::new()
                    },
                }
            );
            assert_eq!(
                **destination,
                Command {
                    kind: CommandKind::External {
                        name: Token {
                            value: "grep".to_string(),
                            kind: TokenKind::Word
                        },
                        args: Vec::new()
                    },
                }
            );
        }
        _ => panic!("Expected Pipe"),
    }
}

#[test]
fn test_parse_pipe_from_string() {
    let tokens = vec![
        Token {
            value: "ls".to_string(),
            kind: TokenKind::String,
        },
        Token {
            value: "|".to_string(),
            kind: TokenKind::Pipe,
        },
        Token {
            value: "grep".to_string(),
            kind: TokenKind::Word,
        },
    ];

    let commands = Parser::new(&tokens).parse();
    match commands[0].kind {
        CommandKind::Pipe {
            ref source,
            ref destination,
        } => {
            assert_eq!(
                **source,
                Command {
                    kind: CommandKind::String("ls".to_string()),
                }
            );
            assert_eq!(
                **destination,
                Command {
                    kind: CommandKind::External {
                        name: Token {
                            value: "grep".to_string(),
                            kind: TokenKind::Word
                        },
                        args: Vec::new()
                    },
                }
            );
        }
        _ => panic!("Expected Pipe"),
    }
}

#[test]
fn test_parse_multiple_commands() {
    let tokens = vec![
        Token {
            value: "ls".to_string(),
            kind: TokenKind::Word,
        },
        Token {
            value: ";".to_string(),
            kind: TokenKind::SemiColon,
        },
        Token {
            value: "cd".to_string(),
            kind: TokenKind::Word,
        },
    ];

    let commands = Parser::new(&tokens).parse();
    assert_eq!(commands.len(), 2);

    match commands[0].kind {
        CommandKind::Builtin {
            ref builtin,
            ref args,
        } => {
            assert_eq!(*builtin, Builtin::Ls);
            assert_eq!(*args, Vec::<Command>::new());
        }
        _ => panic!("Expected BuiltIn"),
    }

    match commands[1].kind {
        CommandKind::Builtin {
            ref builtin,
            ref args,
        } => {
            assert_eq!(*builtin, Builtin::Cd);
            assert_eq!(*args, Vec::<Command>::new());
        }
        _ => panic!("Expected BuiltIn"),
    }
}

#[test]
fn test_parse_three_commands() {
    let tokens = vec![
        Token {
            value: "ls".to_string(),
            kind: TokenKind::Word,
        },
        Token {
            value: ";".to_string(),
            kind: TokenKind::SemiColon,
        },
        Token {
            value: "cd".to_string(),
            kind: TokenKind::Word,
        },
        Token {
            value: ";".to_string(),
            kind: TokenKind::SemiColon,
        },
        Token {
            value: "pwd".to_string(),
            kind: TokenKind::Word,
        },
    ];

    let commands = Parser::new(&tokens).parse();
    assert_eq!(commands.len(), 3);

    match commands[0].kind {
        CommandKind::Builtin {
            ref builtin,
            ref args,
        } => {
            assert_eq!(*builtin, Builtin::Ls);
            assert_eq!(*args, Vec::<Command>::new());
        }
        _ => panic!("Expected BuiltIn"),
    }

    match commands[1].kind {
        CommandKind::Builtin {
            ref builtin,
            ref args,
        } => {
            assert_eq!(*builtin, Builtin::Cd);
            assert_eq!(*args, Vec::<Command>::new());
        }
        _ => panic!("Expected BuiltIn"),
    }

    match commands[2].kind {
        CommandKind::Builtin {
            ref builtin,
            ref args,
        } => {
            assert_eq!(*builtin, Builtin::Pwd);
            assert_eq!(*args, Vec::<Command>::new());
        }
        _ => panic!("Expected BuiltIn"),
    }
}

#[test]
fn parse_only_semicolon() {
    let tokens = vec![Token {
        value: ";".to_string(),
        kind: TokenKind::SemiColon,
    }];

    let commands = Parser::new(&tokens).parse();
    assert_eq!(commands.len(), 1);
    match commands[0].kind {
        CommandKind::Empty => (),
        _ => panic!("Expected None"),
    }
}

#[test]
fn parse_multiple_semicolons() {
    let tokens = vec![
        Token {
            value: ";".to_string(),
            kind: TokenKind::SemiColon,
        },
        Token {
            value: ";".to_string(),
            kind: TokenKind::SemiColon,
        },
    ];

    let commands = Parser::new(&tokens).parse();
    assert_eq!(commands.len(), 2);
    match commands[0].kind {
        CommandKind::Empty => (),
        _ => panic!("Expected None"),
    }
    match commands[1].kind {
        CommandKind::Empty => (),
        _ => panic!("Expected None"),
    }
}

#[test]
fn parse_integer() {
    let tokens = vec![Token {
        value: "123".to_string(),
        kind: TokenKind::Integer,
    }];

    let commands = Parser::new(&tokens).parse();
    match commands[0].kind {
        CommandKind::Integer(value) => {
            assert_eq!(value, 123);
        }
        _ => panic!("Expected Integer"),
    }
}

#[test]
fn parse_float() {
    let tokens = vec![Token {
        value: "3.14".to_string(),
        kind: TokenKind::Float,
    }];

    let commands = Parser::new(&tokens).parse();
    match commands[0].kind {
        CommandKind::Float(ref value) => {
            assert_eq!(value.parse::<f64>().unwrap(), 3.14);
        }
        _ => panic!("Expected Float"),
    }
}

fn word(value: &str) -> Token {
    Token {
        value: value.to_string(),
        kind: TokenKind::Word,
    }
}

fn kinds(kind: TokenKind, value: &str) -> Token {
    Token {
        value: value.to_string(),
        kind,
    }
}

fn parse_line(line: &str) -> Vec<Command> {
    let commands = hug_shell::parser::parse_line(line).unwrap();
    let tokens = hug_shell::lexer::lex(line).unwrap();
    assert_eq!(Parser::new(&tokens).parse(), commands);
    commands
}

fn external(name: &str, args: Vec<Command>) -> Command {
    Command::new(CommandKind::External {
        name: word(name),
        args,
    })
}

fn builtin(builtin: Builtin, args: Vec<Command>) -> Command {
    Command::new(CommandKind::Builtin { builtin, args })
}

fn string(value: &str) -> Command {
    Command::new(CommandKind::String(value.to_string()))
}

fn pipe(source: Command, destination: Command) -> Command {
    Command::new(CommandKind::Pipe {
        source: Box::new(source),
        destination: Box::new(destination),
    })
}

fn redirect(source: Command, destination: Command) -> Command {
    Command::new(CommandKind::Redirect {
        source: Box::new(source),
        destination: Box::new(destination),
    })
}

fn error(message: &str) -> Command {
    Command::new(CommandKind::Error(message.to_string()))
}

#[test]
fn parse_line_of_semicolons() {
    assert_eq!(parse_line(";"), vec![Command::new(CommandKind::Empty)]);
    assert_eq!(
        parse_line(";;"),
        vec![
            Command::new(CommandKind::Empty),
            Command::new(CommandKind::Empty)
        ]
    );
    assert_eq!(
        parse_line("ls ; ; pwd"),
        vec![
            builtin(Builtin::Ls, vec![]),
            Command::new(CommandKind::Empty),
            builtin(Builtin::Pwd, vec![])
        ]
    );
}

#[test]
fn parse_line_with_pipe() {
    assert_eq!(
        parse_line("ls | grep x"),
        vec![pipe(
            builtin(Builtin::Ls, vec![]),
            external("grep", vec![string("x")])
        )]
    );
}

#[test]
fn parse_line_with_redirect() {
    assert_eq!(
        parse_line("ls > 'out.txt'"),
        vec![redirect(builtin(Builtin::Ls, vec![]), string("out.txt"))]
    );
    // A bare word is always a command, after an operator too.
    assert_eq!(
        parse_line("ls > out.txt"),
        vec![redirect(
            builtin(Builtin::Ls, vec![]),
            external("out.txt", vec![])
        )]
    );
}

#[test]
fn parse_is_left_associative() {
    assert_eq!(
        parse_line("a | b | c"),
        vec![pipe(
            pipe(external("a", vec![]), external("b", vec![])),
            external("c", vec![])
        )]
    );
    assert_eq!(
        parse_line("a > 'f' | c"),
        vec![pipe(
            redirect(external("a", vec![]), string("f")),
            external("c", vec![])
        )]
    );
    assert_eq!(
        parse_line("a | b > 'f' | c x > 'g'"),
        vec![redirect(
            pipe(
                redirect(
                    pipe(external("a", vec![]), external("b", vec![])),
                    string("f")
                ),
                external("c", vec![string("x")])
            ),
            string("g")
        )]
    );
}

#[test]
fn parse_trailing_semicolon_ends_the_program() {
    assert_eq!(parse_line("ls ;"), vec![builtin(Builtin::Ls, vec![])]);
    assert_eq!(
        parse_line("ls ; pwd ;"),
        vec![builtin(Builtin::Ls, vec![]), builtin(Builtin::Pwd, vec![])]
    );
    assert_eq!(
        parse_line("ls ;;"),
        vec![builtin(Builtin::Ls, vec![]), Command::new(CommandKind::Empty)]
    );
}

#[test]
fn parse_arguments_are_greedy_and_literal() {
    assert_eq!(
        parse_line("echo ls 'a b' true cd ; pwd"),
        vec![
            external(
                "echo",
                vec![
                    string("ls"),
                    string("a b"),
                    Command::new(CommandKind::Boolean(true)),
                    string("cd")
                ]
            ),
            builtin(Builtin::Pwd, vec![])
        ]
    );
}

#[test]
fn parse_unexpected_end_of_input() {
    assert_eq!(parse_line("ls |"), vec![error("Unexpected end of input")]);
    assert_eq!(parse_line("ls >"), vec![error("Unexpected end of input")]);
    assert_eq!(
        parse_line("pwd ; ls | grep x |"),
        vec![
            builtin(Builtin::Pwd, vec![]),
            error("Unexpected end of input")
        ]
    );
}

#[test]
fn parse_unexpected_token() {
    assert_eq!(parse_line("| ls"), vec![error("Unexpected token")]);
    assert_eq!(parse_line("> 'f'"), vec![error("Unexpected token")]);
    assert_eq!(parse_line("ls | | x"), vec![error("Unexpected token")]);
    assert_eq!(parse_line("'a' b"), vec![error("Unexpected token")]);
    assert_eq!(parse_line("true false"), vec![error("Unexpected token")]);
}

#[test]
fn parse_error_ends_the_program() {
    assert_eq!(
        parse_line("ls ; 'a' 'b' ; pwd ; cd"),
        vec![builtin(Builtin::Ls, vec![]), error("Unexpected token")]
    );
    assert_eq!(
        parse_line("| ; pwd"),
        vec![error("Unexpected token")]
    );
}

#[test]
fn parse_operator_before_semicolon_takes_the_empty_statement() {
    assert_eq!(
        parse_line("ls | ; pwd"),
        vec![
            pipe(builtin(Builtin::Ls, vec![]), Command::new(CommandKind::Empty)),
            builtin(Builtin::Pwd, vec![])
        ]
    );
}

#[test]
fn parse_literals_whose_text_does_not_fit() {
    for token in [
        kinds(TokenKind::Boolean, "yes"),
        kinds(TokenKind::Integer, "12a"),
        kinds(TokenKind::Integer, ""),
        kinds(TokenKind::Integer, "9223372036854775808"),
        kinds(TokenKind::Float, "1.2.3"),
        kinds(TokenKind::Float, "."),
        kinds(TokenKind::Float, "abc"),
    ] {
        let tokens = vec![token.clone()];
        assert_eq!(
            Parser::new(&tokens).parse(),
            vec![error("Unexpected token")],
            "{:?}",
            token
        );
        let tokens = vec![word("echo"), token.clone(), word("x")];
        assert_eq!(
            Parser::new(&tokens).parse(),
            vec![error("Unexpected token")],
            "{:?}",
            token
        );
    }
}

#[test]
fn parse_numbers_of_every_shape() {
    let tokens = vec![
        word("echo"),
        kinds(TokenKind::Integer, "-9223372036854775808"),
        kinds(TokenKind::Integer, "+7"),
        kinds(TokenKind::Integer, "007"),
        kinds(TokenKind::Float, "-1.5e-3"),
        kinds(TokenKind::Float, "5."),
        kinds(TokenKind::Float, ".5"),
        kinds(TokenKind::Float, "2E8"),
    ];
    assert_eq!(
        Parser::new(&tokens).parse(),
        vec![external(
            "echo",
            vec![
                Command::new(CommandKind::Integer(i64::MIN)),
                Command::new(CommandKind::Integer(7)),
                Command::new(CommandKind::Integer(7)),
                Command::new(CommandKind::Float("-1.5e-3".to_string())),
                Command::new(CommandKind::Float("5.".to_string())),
                Command::new(CommandKind::Float(".5".to_string())),
                Command::new(CommandKind::Float("2E8".to_string())),
            ]
        )]
    );
}

#[test]
fn parse_can_be_taken_up_again() {
    let tokens = vec![
        kinds(TokenKind::String, "a"),
        word("b"),
        kinds(TokenKind::SemiColon, ";"),
        word("pwd"),
    ];
    let mut parser = Parser::new(&tokens);
    assert_eq!(parser.parse(), vec![error("Unexpected token")]);
    // The error stands for all that follows: nothing is left to parse.
    assert_eq!(parser.parse(), Vec::<Command>::new());
}

#[test]
fn parsed_commands_can_be_run() {
    for line in [
        "ls | grep x > 'f' ; cd ; pwd 1 2",
        "echo true 'a' ; ; 'lit' | wc",
        "| broken",
    ] {
        for command in parse_line(line) {
            assert!(command.has_literal_arguments(), "{:?}", line);
        }
    }
}

#[test]
fn parse_line_with_an_open_string() {
    assert_eq!(
        hug_shell::parser::parse_line("ls ; echo 'a").unwrap_err(),
        "Syntax Error: Unterminated string"
    );
    assert_eq!(
        hug_shell::parser::parse_line("").unwrap(),
        Vec::<Command>::new()
    );
}
