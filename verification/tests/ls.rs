use colored::Colorize;
use hug_shell::builtin::{Builtin, BuiltinExitCode};
use hug_shell::command::{Command, CommandKind};
use hug_shell::system::{Action, Entry, Failure, FailureKind, Reply, Step};
use hug_shell::typesystem::{FileStatus, Type};

fn ls(args: Vec<Command>) -> Command {
    Command::new(CommandKind::Builtin {
        builtin: Builtin::Ls,
        args,
    })
}

fn entry(path: &str, status: FileStatus) -> Entry {
    Entry {
        path: path.to_string(),
        status,
    }
}

fn file() -> FileStatus {
    FileStatus::File { executable: false }
}

#[test]
fn ls_test_run() {
    let command = ls(Vec::new());
    assert_eq!(
        command.run(&Vec::new()),
        Step::Pending(Action::ListDir {
            path: ".".to_string()
        })
    );
    let listing = Reply::Entries(vec![
        entry("./src", FileStatus::Directory),
        entry("./LICENSE", file()),
        entry("./Cargo.lock", file()),
        entry("./Cargo.toml", file()),
        entry("./target", FileStatus::Directory),
        entry("./test_dir", FileStatus::Directory),
        entry("./.git", FileStatus::Directory),
        entry("./README.md", file()),
        entry("./.gitignore", file()),
    ]);
    let (output, next) = command.run_ls(&vec![listing], 0);
    assert_eq!(next, 1);
    match output {
        Step::Finished(Type::Array(files)) => {
            assert_eq!(files.len(), 9);
            assert_eq!(files[0].to_string(), "src".blue().to_string());
            assert_eq!(files[1].to_string(), "LICENSE".green().to_string());
            assert_eq!(files[2].to_string(), "Cargo.lock".green().to_string());
            assert_eq!(files[3].to_string(), "Cargo.toml".green().to_string());
            assert_eq!(files[4].to_string(), "target".blue().to_string());
            assert_eq!(files[5].to_string(), "test_dir".blue().to_string());
            assert_eq!(files[6].to_string(), ".git".bright_blue().to_string());
            assert_eq!(files[7].to_string(), "README.md".green().to_string());
            assert_eq!(
                files[8].to_string(),
                ".gitignore".bright_green().to_string()
            );
        }
        _ => panic!("Expected Type::Array"),
    }
}

#[test]
fn test_run_with_args() {
    let command = ls(vec![Command::new(CommandKind::String(
        "test_dir".to_string(),
    ))]);
    assert_eq!(
        command.run(&Vec::new()),
        Step::Pending(Action::ListDir {
            path: "test_dir".to_string()
        })
    );
    let listing = Reply::Entries(vec![
        entry("test_dir/1.txt", file()),
        entry("test_dir/2.txt", file()),
    ]);
    let output = command.run(&vec![listing]);
    match output {
        Step::Finished(Type::Array(files)) => {
            assert_eq!(files.len(), 2);
            assert_eq!(files[0].to_string(), "1.txt".green().to_string());
            assert_eq!(files[1].to_string(), "2.txt".green().to_string());
        }
        _ => panic!("Expected Type::Array, got {:?}", output),
    }
}

#[test]
fn test_run_with_invalid_args() {
    let command = ls(vec![Command::new(CommandKind::String(
        "invalid".to_string(),
    ))]);
    let output = command.run(&vec![Reply::Failed(Failure {
        kind: FailureKind::NotFound,
        message: "No such file or directory (os error 2)".to_string(),
    })]);
    match output {
        Step::Finished(Type::Error { code, message }) => {
            assert_eq!(code, BuiltinExitCode::FileNotFound.code());
            assert_eq!(message, "No such file or directory (os error 2)");
        }
        _ => panic!("Expected Error, got {:?}", output),
    };
}

#[test]
fn ls_test_run_with_too_many_args() {
    let output = ls(vec![
        Command::new(CommandKind::String("/".to_string())),
        Command::new(CommandKind::String("/".to_string())),
    ])
    .run(&Vec::new());
    match output {
        Step::Finished(Type::Error { code, message }) => {
            assert_eq!(code, BuiltinExitCode::TooManyArguments.code());
            assert_eq!(message, "Too many arguments");
        }
        _ => panic!("Expected Error, got {:?}", output),
    };
}

#[test]
fn ls_of_an_empty_directory() {
    let output = ls(Vec::new()).run(&vec![Reply::Entries(Vec::new())]);
    match output {
        Step::Finished(value) => {
            assert_eq!(value, Type::Array(Vec::new()));
            assert_eq!(value.to_colorless_string(), "[\n\n]");
            assert_eq!(value.to_undecorated_string(), "");
        }
        _ => panic!("Expected a value, got {:?}", output),
    }
}

#[test]
fn ls_files_are_shown_by_name_and_keep_their_path() {
    let listing = Reply::Entries(vec![
        entry("/tmp/a.txt", file()),
        entry("/tmp/run.sh", FileStatus::File { executable: true }),
    ]);
    let output = ls(vec![Command::new(CommandKind::String("/tmp".to_string()))])
        .run(&vec![listing]);
    match output {
        Step::Finished(Type::Array(ref files)) => {
            match &files[0] {
                Type::File {
                    path, full_path, ..
                } => {
                    assert_eq!(path, "/tmp/a.txt");
                    assert_eq!(*full_path, false);
                }
                other => panic!("Expected a file, got {:?}", other),
            }
            assert_eq!(files[1].to_string(), "run.sh".yellow().to_string());
            assert_eq!(
                Type::Array(vec![files[0].clone(), files[1].clone()]).to_undecorated_string(),
                "a.txt\nrun.sh"
            );
        }
        _ => panic!("Expected Type::Array, got {:?}", output),
    }
}

#[test]
fn ls_with_permission_denied() {
    let output = ls(Vec::new()).run(&vec![Reply::Failed(Failure {
        kind: FailureKind::PermissionDenied,
        message: "Permission denied (os error 13)".to_string(),
    })]);
    assert_eq!(
        output,
        Step::Finished(Type::Error {
            message: "Permission denied (os error 13)".to_string(),
            code: 100
        })
    );
}
