//! The core of an interactive command shell: a line of input is split into
//! tokens, the tokens are parsed into command trees, and each tree is
//! evaluated to a value that can be written as text.
//!
//! The crate performs no input or output. Evaluation asks its caller for
//! every action on the operating system and is told the outcome:
//! [`command::Command::run`] takes the replies to the actions taken so far
//! and gives the value of the command or the next action to take.
//!
//! * [`lexer`]: a line becomes tokens.
//! * [`parser`]: tokens become command trees.
//! * [`command`], [`builtin`], [`cd`], [`ls`], [`pwd`], [`external`],
//!   [`pipes`], [`redirect`]: the trees and how each kind of node is run.
//! * [`semantics`]: what running a tree means, and the laws of it.
//! * [`system`]: the actions and the replies.
//! * [`evaluation`]: an evaluation under way, from one action to the next.
//! * [`typesystem`]: values and their texts.
//! * [`decimal`], [`text`]: numbers and characters as text.

pub mod text;
pub mod decimal;
pub mod lexer;
pub mod builtin;
pub mod command;
pub mod parser;
pub mod typesystem;
pub mod system;
pub mod semantics;
pub mod evaluation;
pub mod cd;
pub mod ls;
pub mod pwd;
pub mod external;
pub mod pipes;
pub mod redirect;
