use hug_shell::builtin::Builtin;
use hug_shell::command::{Command, CommandKind};
use hug_shell::system::{Action, Entry, Failure, FailureKind, Reply, Step};
use hug_shell::typesystem::{FileStatus, Type};

fn pwd(args: Vec<Command>) -> Command {
    Command {
        kind: CommandKind::Builtin {
            builtin: Builtin::Pwd,
            args,
        },
    }
}

#[test]
fn pwd_test_run() {
    let command = pwd(vec![]);
    assert_eq!(command.run(&Vec::new()), Step::Pending(Action::CurrentDir));
    let output = command.run(&vec![Reply::Directory(Entry {
        path: "/home/huggepugge/hug_shell".to_string(),
        status: FileStatus::Directory,
    })]);
    match output {
        Step::Finished(Type::File { ref path, .. }) => {
            assert_eq!(path, "/home/huggepugge/hug_shell");
        }
        _ => panic!("Expected Type::File"),
    }
    match output {
        Step::Finished(value) => assert_eq!(
            value.to_undecorated_string(),
            "/home/huggepugge/hug_shell"
        ),
        _ => panic!("Expected Type::File"),
    }
}

#[test]
fn pwd_with_any_argument_is_too_many_arguments() {
    for args in [
        vec![Command::new(CommandKind::String("x".to_string()))],
        vec![Command::new(CommandKind::Integer(1))],
        vec![
            Command::new(CommandKind::Boolean(true)),
            Command::new(CommandKind::String("y".to_string())),
        ],
    ] {
        let command = pwd(args);
        for replies in [
            Vec::new(),
            vec![Reply::Done],
            vec![Reply::Directory(Entry {
                path: "/".to_string(),
                status: FileStatus::Directory,
            })],
        ] {
            let (step, next) = command.run_pwd(&replies, 0);
            assert_eq!(next, 0);
            assert_eq!(
                step,
                Step::Finished(Type::Error {
                    message: "Too many arguments".to_string(),
                    code: 1
                })
            );
            assert_eq!(command.run(&replies), step);
        }
    }
}

#[test]
fn pwd_when_the_directory_is_gone() {
    let output = pwd(vec![]).run(&vec![Reply::Failed(Failure {
        kind: FailureKind::NotFound,
        message: "No such file or directory (os error 2)".to_string(),
    })]);
    assert_eq!(
        output,
        Step::Finished(Type::Error {
            message: "No such file or directory (os error 2)".to_string(),
            code: 50
        })
    );
}
