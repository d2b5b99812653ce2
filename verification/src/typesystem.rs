//! Values: what evaluating a command gives, and the three ways of
//! writing a value as text.
//!
//! * decorated, for the terminal: strings quoted, and colour wherever the
//!   terminal takes it;
//! * colourless: the same quotes and brackets without any colour;
//! * undecorated: the bare value, as a file or another process wants it.

use vstd::prelude::*;
use vstd::utf8::{decode_utf8, valid_utf8};
use vstd::std_specs::cmp::PartialEqSpecImpl;
use colored::Colorize;
use crate::decimal::{decimal, decimal_digits, lemma_decimal_digits_value, push_decimal};
use crate::text::{push_text, same_text};

verus! {

/// What a process left behind when it ended.
#[derive(Debug)]
pub struct ProcessOutput {
    /// The exit code; `None` when a signal ended the process.
    pub code: Option<i32>,
    /// What the process wrote to its standard output.
    pub stdout: Vec<u8>,
    /// What the process wrote to its standard error.
    pub stderr: Vec<u8>,
}

/// What a path was found to be when a value was made of it.
#[derive(Debug)]
pub enum FileStatus {
    Directory,
    File { executable: bool },
    /// Neither a directory nor a regular file.
    Other,
    /// The path could not be looked at; the text says why.
    Unreadable(String),
}

/// A value.
///
/// A float is held as its text: nothing here computes with it.
#[derive(Debug)]
pub enum Type {
    Output(ProcessOutput),
    File { path: String, full_path: bool, status: FileStatus },
    String(String),
    Array(Vec<Type>),
    Integer(i64),
    Float(String),
    Boolean(bool),
    Null,
    Error { message: String, code: i32 },
}

/// The output of a process as a mathematical value.
pub struct ProcessOutputView {
    pub code: Option<i32>,
    pub stdout: Seq<u8>,
    pub stderr: Seq<u8>,
}

/// The status of a path as a mathematical value.
pub enum FileStatusView {
    Directory,
    File { executable: bool },
    Other,
    Unreadable(Seq<char>),
}

/// A value as a mathematical value.
pub enum TypeView {
    Output(ProcessOutputView),
    File { path: Seq<char>, full_path: bool, status: FileStatusView },
    String(Seq<char>),
    Array(Seq<TypeView>),
    Integer(i64),
    Float(Seq<char>),
    Boolean(bool),
    Null,
    Error { message: Seq<char>, code: i32 },
}

impl View for ProcessOutput {
    type V = ProcessOutputView;

    open spec fn view(&self) -> ProcessOutputView {
        ProcessOutputView { code: self.code, stdout: self.stdout@, stderr: self.stderr@ }
    }
}

impl View for FileStatus {
    type V = FileStatusView;

    open spec fn view(&self) -> FileStatusView {
        match self {
            FileStatus::Directory => FileStatusView::Directory,
            FileStatus::File { executable } => FileStatusView::File { executable: *executable },
            FileStatus::Other => FileStatusView::Other,
            FileStatus::Unreadable(reason) => FileStatusView::Unreadable(reason@),
        }
    }
}

impl Type {
    /// The value as a mathematical value.
    pub open spec fn model(&self) -> TypeView
        decreases self,
    {
        match self {
            Type::Output(output) => TypeView::Output(output@),
            Type::File { path, full_path, status } => TypeView::File {
                path: path@,
                full_path: *full_path,
                status: status@,
            },
            Type::String(s) => TypeView::String(s@),
            Type::Array(items) => TypeView::Array(
                Seq::new(
                    items@.len(),
                    |i: int|
                        if 0 <= i < items@.len() {
                            items@[i].model()
                        } else {
                            TypeView::Null
                        },
                ),
            ),
            Type::Integer(i) => TypeView::Integer(*i),
            Type::Float(text) => TypeView::Float(text@),
            Type::Boolean(b) => TypeView::Boolean(*b),
            Type::Null => TypeView::Null,
            Type::Error { message, code } => TypeView::Error { message: message@, code: *code },
        }
    }
}

impl View for Type {
    type V = TypeView;

    open spec fn view(&self) -> TypeView {
        self.model()
    }
}

impl DeepView for Type {
    type V = TypeView;

    open spec fn deep_view(&self) -> TypeView {
        self@
    }
}

/// The colours that values are shown in.
#[derive(Debug, PartialEq, Eq, Clone, Copy, Structural)]
pub enum Paint {
    Red,
    Green,
    Yellow,
    Blue,
    Cyan,
    BrightGreen,
    BrightBlue,
    BrightMagenta,
}

/// The character that starts a terminal control sequence.
pub open spec fn escape() -> char {
    '\x1b'
}

/// The number by which a terminal knows a colour of text.
pub open spec fn paint_code(paint: Paint) -> Seq<char> {
    match paint {
        Paint::Red => "31"@,
        Paint::Green => "32"@,
        Paint::Yellow => "33"@,
        Paint::Blue => "34"@,
        Paint::Cyan => "36"@,
        Paint::BrightGreen => "92"@,
        Paint::BrightBlue => "94"@,
        Paint::BrightMagenta => "95"@,
    }
}

/// A text between the control sequence that sets a colour and the one that resets it.
pub open spec fn painted(text: Seq<char>, paint: Paint) -> Seq<char> {
    "\x1b["@ + paint_code(paint) + "m"@ + text + "\x1b[0m"@
}

/// Whether `out` shows `text` in the colour `paint`: as it is, where
/// colour is switched off, or else between the two control sequences.
pub open spec fn is_painted(text: Seq<char>, paint: Paint, out: Seq<char>) -> bool {
    out == text || out == painted(text, paint)
}

/// Whether `out` shows `text` in the colour `paint`. Nothing is said of a
/// text that holds an escape character itself.
pub open spec fn is_shown(text: Seq<char>, paint: Paint, out: Seq<char>) -> bool {
    text.contains(escape()) || is_painted(text, paint, out)
}

/// The text that a run of bytes becomes when every part of it that is not
/// UTF-8 is replaced.
pub uninterp spec fn utf8_lossy(bytes: Seq<u8>) -> Seq<char>;

/// The last component of a path, as Unix paths are read, if it has one.
pub uninterp spec fn path_file_name(path: Seq<char>) -> Option<Seq<char>>;

/// A text as a string literal would be written: between double quotes,
/// with the characters escaped that need it.
pub uninterp spec fn debug_text(text: Seq<char>) -> Seq<char>;

/// Shows a text in a colour.
///
/// Trusted: the body is `colored::Colorize::color` on a `&str` and the
/// `to_string` of the `ColoredString` that it gives. Whether colour is
/// used depends on the environment and the terminal, so the contract
/// allows both outcomes: the text unchanged, or the text between the
/// sequence that sets the foreground colour and the reset sequence. It
/// claims nothing of a text that holds an escape character, in which
/// `colored` may repeat the colour after a reset.
#[verifier::external_body]
fn paint(text: &str, tint: Paint) -> (out: String)
    ensures
        is_shown(text@, tint, out@),
{
    let color = match tint {
        Paint::Red => colored::Color::Red,
        Paint::Green => colored::Color::Green,
        Paint::Yellow => colored::Color::Yellow,
        Paint::Blue => colored::Color::Blue,
        Paint::Cyan => colored::Color::Cyan,
        Paint::BrightGreen => colored::Color::BrightGreen,
        Paint::BrightBlue => colored::Color::BrightBlue,
        Paint::BrightMagenta => colored::Color::BrightMagenta,
    };
    text.color(color).to_string()
}

/// Bytes as text, with what is not UTF-8 replaced.
///
/// Trusted: the body is `String::from_utf8_lossy`. Its result is named
/// `utf8_lossy`; of bytes that are UTF-8 it is their decoding.
#[verifier::external_body]
fn lossy_text(bytes: &Vec<u8>) -> (text: String)
    ensures
        text@ == utf8_lossy(bytes@),
        valid_utf8(bytes@) ==> text@ == decode_utf8(bytes@),
{
    String::from_utf8_lossy(bytes).into_owned()
}

/// The last component of a path.
///
/// Trusted: the body is `std::path::Path::file_name`, with the path made
/// of the text and the name turned back into text. Its result is named
/// `path_file_name`.
#[verifier::external_body]
fn file_name(path: &str) -> (name: Option<String>)
    ensures
        match name {
            Some(name) => path_file_name(path@) == Some(name@),
            None => path_file_name(path@) is None,
        },
{
    let name = std::path::Path::new(path).file_name()?;
    Some(name.to_string_lossy().into_owned())
}

/// A text as a string literal would be written.
///
/// Trusted: the body formats the text with `{:?}`, that is with the
/// `Debug` of `str`. Its result is named `debug_text`.
#[verifier::external_body]
fn debug_string(text: &str) -> (out: String)
    ensures
        out@ == debug_text(text@),
{
    format!("{:?}", text)
}

/// The texts `parts` with `separator` between each two of them.
pub open spec fn join(parts: Seq<Seq<char>>, separator: Seq<char>) -> Seq<char>
    decreases parts.len(),
{
    if parts.len() == 0 {
        Seq::empty()
    } else if parts.len() == 1 {
        parts[0]
    } else {
        join(parts.drop_last(), separator) + separator + parts.last()
    }
}

/// The texts `parts` as a list: between square brackets, one part to a
/// line, each after two spaces, with a comma after each but the last.
pub open spec fn listing(parts: Seq<Seq<char>>) -> Seq<char> {
    "[\n"@ + join(Seq::new(parts.len(), |i: int| "  "@ + parts[i]), ",\n"@) + "\n]"@
}

impl ProcessOutputView {
    /// Whether the process ended with the exit code 0.
    pub open spec fn success(self) -> bool {
        self.code == Some(0i32)
    }

    /// What the process is shown as: its standard output if it succeeded,
    /// else its standard error, as text.
    pub open spec fn text(self) -> Seq<char> {
        if self.success() {
            utf8_lossy(self.stdout)
        } else {
            utf8_lossy(self.stderr)
        }
    }
}

/// The name that a file is shown by: the whole path if that is asked for
/// or if the path has no last component, else its last component.
pub open spec fn file_label(path: Seq<char>, full_path: bool) -> Seq<char> {
    if full_path {
        path
    } else {
        match path_file_name(path) {
            Some(name) => name,
            None => path,
        }
    }
}

/// The colour that a file is shown in: blue for a directory, green for a
/// file, yellow for a file that can be executed; the bright kind of blue
/// or green where the name starts with a point.
pub open spec fn file_paint(label: Seq<char>, status: FileStatusView) -> Paint {
    let hidden = label.len() > 0 && label[0] == '.';
    match status {
        FileStatusView::Directory => if hidden {
            Paint::BrightBlue
        } else {
            Paint::Blue
        },
        FileStatusView::File { executable } => if hidden {
            Paint::BrightGreen
        } else if executable {
            Paint::Yellow
        } else {
            Paint::Green
        },
        _ => Paint::Green,
    }
}

/// The text of an error: the message, and the code on a line of its own.
pub open spec fn error_text(label: Seq<char>, message: Seq<char>, code: i32) -> Seq<char> {
    label + message + "\nExited With status "@ + decimal(code as int)
}

/// The text of a boolean.
pub open spec fn boolean_text(b: bool) -> Seq<char> {
    if b {
        "true"@
    } else {
        "false"@
    }
}

/// A string between double quotes.
pub open spec fn quoted(s: Seq<char>) -> Seq<char> {
    "\""@ + s + "\""@
}

/// The items of a list, each without colour.
pub open spec fn colorless_items(items: Seq<TypeView>) -> Seq<Seq<char>>
    decreases items,
{
    Seq::new(
        items.len(),
        |i: int|
            if 0 <= i < items.len() {
                items[i].colorless()
            } else {
                Seq::empty()
            },
    )
}

/// The items of a list, each bare.
pub open spec fn undecorated_items(items: Seq<TypeView>) -> Seq<Seq<char>>
    decreases items,
{
    Seq::new(
        items.len(),
        |i: int|
            if 0 <= i < items.len() {
                items[i].undecorated()
            } else {
                Seq::empty()
            },
    )
}

impl TypeView {
    /// The value with its quotes and brackets, and without colour.
    pub open spec fn colorless(self) -> Seq<char>
        decreases self,
    {
        match self {
            TypeView::Output(output) => output.text(),
            TypeView::File { path, full_path, .. } => file_label(path, full_path),
            TypeView::String(s) => quoted(s),
            TypeView::Array(items) => listing(colorless_items(items)),
            TypeView::Integer(i) => decimal(i as int),
            TypeView::Float(text) => text,
            TypeView::Boolean(b) => boolean_text(b),
            TypeView::Null => "null"@,
            TypeView::Error { message, code } => error_text("Error: "@, message, code),
        }
    }

    /// The bare value: a string without quotes, and a list as its bare
    /// items, one to a line.
    pub open spec fn undecorated(self) -> Seq<char>
        decreases self,
    {
        match self {
            TypeView::String(s) => s,
            TypeView::Array(items) => join(undecorated_items(items), "\n"@),
            TypeView::Output(output) => output.text(),
            TypeView::File { path, full_path, .. } => file_label(path, full_path),
            TypeView::Integer(i) => decimal(i as int),
            TypeView::Float(text) => text,
            TypeView::Boolean(b) => boolean_text(b),
            TypeView::Null => "null"@,
            TypeView::Error { message, code } => error_text("Error: "@, message, code),
        }
    }

    /// Whether `out` is the value as the terminal shows it.
    ///
    /// The output of a process is shown as it is. A file is shown by its
    /// name in the colour of its status; one that is neither a directory
    /// nor a regular file, by its name as a literal; one that could not be
    /// looked at, by the reason. A string is quoted and green, a number
    /// cyan, a boolean bright magenta, the null value yellow. Of an error
    /// the label is red. A list holds its items as the terminal shows them.
    pub open spec fn is_decorated(self, out: Seq<char>) -> bool
        decreases self,
    {
        match self {
            TypeView::Output(output) => out == output.text(),
            TypeView::File { path, full_path, status } => {
                let label = file_label(path, full_path);
                match status {
                    FileStatusView::Unreadable(reason) => out == reason,
                    FileStatusView::Other => out == debug_text(label),
                    _ => is_shown(label, file_paint(label, status), out),
                }
            },
            TypeView::String(s) => is_shown(quoted(s), Paint::Green, out),
            TypeView::Array(items) => exists|parts: Seq<Seq<char>>|
                {
                    &&& parts.len() == items.len()
                    &&& forall|i: int|
                        0 <= i < items.len() ==> (#[trigger] items[i]).is_decorated(parts[i])
                    &&& out == listing(parts)
                },
            TypeView::Integer(i) => is_painted(decimal(i as int), Paint::Cyan, out),
            TypeView::Float(text) => is_shown(text, Paint::Cyan, out),
            TypeView::Boolean(b) => is_painted(boolean_text(b), Paint::BrightMagenta, out),
            TypeView::Null => is_painted("null"@, Paint::Yellow, out),
            TypeView::Error { message, code } => {
                ||| out == error_text("Error: "@, message, code)
                ||| out == error_text(painted("Error: "@, Paint::Red), message, code)
            },
        }
    }

    /// Whether every file in the value is a directory or a regular file
    /// that could be looked at.
    pub open spec fn has_plain_files(self) -> bool
        decreases self,
    {
        match self {
            TypeView::File { status, .. } => status is Directory || status is File,
            TypeView::Array(items) => forall|i: int|
                0 <= i < items.len() ==> (#[trigger] items[i]).has_plain_files(),
            _ => true,
        }
    }

    /// Whether the value can name a file: a string, a file, a number or a boolean.
    pub open spec fn is_path_shaped(self) -> bool {
        self is String || self is File || self is Integer || self is Float || self is Boolean
    }

    /// Whether two values are equal. Values of different kinds never are.
    /// Two files are equal when their paths are, two lists when their
    /// items are, one by one; any other two when they hold the same.
    pub open spec fn equals(self, other: TypeView) -> bool
        decreases self,
    {
        match (self, other) {
            (TypeView::Output(a), TypeView::Output(b)) => a == b,
            (TypeView::File { path: a, .. }, TypeView::File { path: b, .. }) => a == b,
            (TypeView::String(a), TypeView::String(b)) => a == b,
            (TypeView::Array(a), TypeView::Array(b)) => {
                &&& a.len() == b.len()
                &&& forall|i: int| 0 <= i < a.len() ==> (#[trigger] a[i]).equals(b[i])
            },
            (TypeView::Integer(a), TypeView::Integer(b)) => a == b,
            (TypeView::Float(a), TypeView::Float(b)) => a == b,
            (TypeView::Boolean(a), TypeView::Boolean(b)) => a == b,
            (TypeView::Null, TypeView::Null) => true,
            (
                TypeView::Error { message: a, code: c },
                TypeView::Error { message: b, code: d },
            ) => a == b && c == d,
            _ => false,
        }
    }
}

/// Where the terminal takes no colour, a value is shown as its colourless
/// text: the two differ by colour alone.
pub proof fn lemma_colorless_is_decorated(value: TypeView)
    requires
        value.has_plain_files(),
    ensures
        value.is_decorated(value.colorless()),
    decreases value,
{
    match value {
        TypeView::Array(items) => {
            let parts = colorless_items(items);
            assert forall|i: int| 0 <= i < items.len() implies (#[trigger] items[i]).is_decorated(
                parts[i],
            ) by {
                lemma_colorless_is_decorated(items[i]);
            }
        },
        _ => {},
    }
}

/// The items of a list value are the views of the items that it holds.
pub proof fn lemma_array_view(items: &Vec<Type>)
    ensures
        Type::Array(*items)@ == TypeView::Array(items.deep_view()),
{
    assert(Type::Array(*items)@->Array_0 =~= items.deep_view());
}

/// A decimal text holds no escape character.
proof fn lemma_decimal_plain(i: int)
    ensures
        !decimal(i).contains(escape()),
{
    if decimal(i).contains(escape()) {
        let k = choose|k: int| 0 <= k < decimal(i).len() && decimal(i)[k] == escape();
        if i < 0 {
            lemma_decimal_digits_value((-i) as nat);
            if k > 0 {
                assert(decimal(i)[k] == decimal_digits((-i) as nat)[k - 1]);
            }
        } else {
            lemma_decimal_digits_value(i as nat);
        }
    }
}

impl ProcessOutput {
    /// Whether the process ended with the exit code 0.
    pub fn success(&self) -> (ok: bool)
        ensures
            ok == self@.success(),
    {
        match self.code {
            Some(code) => code == 0,
            None => false,
        }
    }

    /// What the process is shown as: its standard output if it succeeded,
    /// else its standard error, as text.
    pub fn text(&self) -> (text: String)
        ensures
            text@ == self@.text(),
    {
        if self.success() {
            lossy_text(&self.stdout)
        } else {
            lossy_text(&self.stderr)
        }
    }
}

/// The name that a file is shown by.
fn label_of(path: &String, full_path: bool) -> (label: String)
    ensures
        label@ == file_label(path@, full_path),
{
    if full_path {
        path.clone()
    } else {
        match file_name(path.as_str()) {
            Some(name) => name,
            None => path.clone(),
        }
    }
}

/// The colour that a file is shown in.
fn paint_of(label: &String, status: &FileStatus) -> (paint: Paint)
    ensures
        paint == file_paint(label@, status@),
{
    let hidden = starts_with_point(label.as_str());
    match status {
        FileStatus::Directory => if hidden {
            Paint::BrightBlue
        } else {
            Paint::Blue
        },
        FileStatus::File { executable } => if hidden {
            Paint::BrightGreen
        } else if *executable {
            Paint::Yellow
        } else {
            Paint::Green
        },
        _ => Paint::Green,
    }
}

/// Whether a text starts with a point.
fn starts_with_point(text: &str) -> (hidden: bool)
    ensures
        hidden == (text@.len() > 0 && text@[0] == '.'),
{
    let mut hidden = false;
    let mut first = true;
    for c in it: text.chars()
        invariant
            it.seq() == text@,
            first == (it.index() == 0),
            hidden == (it.index() > 0 && text@[0] == '.'),
    {
        if first {
            hidden = c == '.';
            first = false;
        }
    }
    hidden
}

/// Appends the text of an error, after its label, to `out`.
fn push_error(out: &mut String, message: &String, code: i32)
    ensures
        final(out)@ == error_text(old(out)@, message@, code),
{
    push_text(out, message.as_str());
    push_text(out, "\nExited With status ");
    push_decimal(out, code as i64);
}

/// The text of a boolean.
fn boolean_string(b: bool) -> (text: String)
    ensures
        text@ == boolean_text(b),
{
    if b {
        "true".to_owned()
    } else {
        "false".to_owned()
    }
}

/// Joining one part more: the part comes after what was joined so far
/// and a separator, unless it is the first.
proof fn lemma_join_push(parts: Seq<Seq<char>>, separator: Seq<char>, next: Seq<char>)
    ensures
        join(parts.push(next), separator) == if parts.len() == 0 {
            next
        } else {
            join(parts, separator) + separator + next
        },
{
    let all = parts.push(next);
    assert(all.drop_last() == parts);
    assert(all.last() == next);
    if parts.len() == 0 {
        assert(all.len() == 1);
        assert(all[0] == next);
    }
}

/// The items of a list one to a line between square brackets: as the
/// terminal shows them if `colored`, else without colour.
fn array_to_string(array: &Vec<Type>, colored: bool) -> (text: String)
    ensures
        colored ==> TypeView::Array(array.deep_view()).is_decorated(text@),
        !colored ==> text@ == TypeView::Array(array.deep_view()).colorless(),
    decreases array, 1int,
{
    let ghost mut parts: Seq<Seq<char>> = Seq::empty();
    let mut text = "[\n".to_owned();
    let mut i: usize = 0;
    assert(Seq::new(parts.len(), |i: int| "  "@ + parts[i]) =~= Seq::<Seq<char>>::empty());
    while i < array.len()
        invariant
            i <= array@.len(),
            parts.len() == i,
            forall|j: int|
                0 <= j < i ==> if colored {
                    array@[j]@.is_decorated(#[trigger] parts[j])
                } else {
                    parts[j] == array@[j]@.colorless()
                },
            text@ == "[\n"@ + join(Seq::new(parts.len(), |i: int| "  "@ + parts[i]), ",\n"@),
        decreases array@.len() - i,
    {
        if i > 0 {
            push_text(&mut text, ",\n");
        }
        push_text(&mut text, "  ");
        let item = if colored {
            array[i].to_string()
        } else {
            array[i].to_colorless_string()
        };
        push_text(&mut text, item.as_str());
        proof {
            let lines = Seq::new(parts.len(), |i: int| "  "@ + parts[i]);
            let more = parts.push(item@);
            let more_lines = Seq::new(more.len(), |i: int| "  "@ + more[i]);
            assert(more_lines =~= lines.push("  "@ + item@));
            lemma_join_push(lines, ",\n"@, "  "@ + item@);
            let joined = join(lines, ",\n"@);
            if i > 0 {
                assert(text@ =~= "[\n"@ + (joined + ",\n"@ + ("  "@ + item@)));
            } else {
                assert(joined == Seq::<char>::empty());
                assert(text@ =~= "[\n"@ + ("  "@ + item@));
            }
            parts = more;
        }
        i = i + 1;
    }
    push_text(&mut text, "\n]");
    proof {
        let views = array.deep_view();
        assert(text@ == listing(parts));
        if colored {
            assert forall|j: int| 0 <= j < views.len() implies (#[trigger] views[j]).is_decorated(
                parts[j],
            ) by {
                assert(views[j] == array@[j]@);
            }
        } else {
            assert(parts =~= colorless_items(views));
        }
    }
    text
}

/// The bare items of a list, one to a line.
fn array_to_lines(array: &Vec<Type>) -> (text: String)
    ensures
        text@ == TypeView::Array(array.deep_view()).undecorated(),
    decreases array, 1int,
{
    let ghost mut lines: Seq<Seq<char>> = Seq::empty();
    let mut text = String::new();
    let mut i: usize = 0;
    while i < array.len()
        invariant
            i <= array@.len(),
            lines.len() == i,
            forall|j: int| 0 <= j < i ==> #[trigger] lines[j] == array@[j]@.undecorated(),
            text@ == join(lines, "\n"@),
        decreases array@.len() - i,
    {
        if i > 0 {
            push_text(&mut text, "\n");
        }
        let item = array[i].to_undecorated_string();
        push_text(&mut text, item.as_str());
        proof {
            lemma_join_push(lines, "\n"@, item@);
            if i == 0 {
                assert(text@ =~= item@);
            }
            lines = lines.push(item@);
        }
        i = i + 1;
    }
    proof {
        let views = array.deep_view();
        assert(lines =~= undecorated_items(views));
    }
    text
}

/// A file as the terminal shows it: its name in the colour of its status.
fn color_file(path: &String, full_path: bool, status: &FileStatus) -> (text: String)
    ensures
        (TypeView::File { path: path@, full_path, status: status@ }).is_decorated(text@),
{
    let label = label_of(path, full_path);
    match status {
        FileStatus::Unreadable(reason) => reason.clone(),
        FileStatus::Other => debug_string(label.as_str()),
        _ => paint(label.as_str(), paint_of(&label, status)),
    }
}

/// The text of an integer, which holds no escape character.
fn plain_text(i: i64) -> (text: String)
    ensures
        text@ == decimal(i as int),
        !text@.contains(escape()),
{
    let mut text = String::new();
    push_decimal(&mut text, i);
    proof {
        assert(Seq::<char>::empty() + decimal(i as int) == decimal(i as int));
        lemma_decimal_plain(i as int);
    }
    text
}

/// A text holds no escape character if none of its characters is one.
proof fn lemma_plain(text: Seq<char>)
    requires
        forall|k: int| 0 <= k < text.len() ==> text[k] != escape(),
    ensures
        !text.contains(escape()),
{
}

/// The label of an error as the terminal shows it.
fn error_label() -> (label: String)
    ensures
        is_painted("Error: "@, Paint::Red, label@),
{
    proof {
        reveal_strlit("Error: ");
        lemma_plain("Error: "@);
    }
    paint("Error: ", Paint::Red)
}

/// A boolean as the terminal shows it.
fn color_boolean(b: bool) -> (text: String)
    ensures
        is_painted(boolean_text(b), Paint::BrightMagenta, text@),
{
    let plain = boolean_string(b);
    proof {
        reveal_strlit("true");
        reveal_strlit("false");
        lemma_plain(plain@);
    }
    paint(plain.as_str(), Paint::BrightMagenta)
}

/// The null value as the terminal shows it.
fn color_null() -> (text: String)
    ensures
        is_painted("null"@, Paint::Yellow, text@),
{
    proof {
        reveal_strlit("null");
        lemma_plain("null"@);
    }
    paint("null", Paint::Yellow)
}

/// A string between double quotes.
fn quote(s: &String) -> (text: String)
    ensures
        text@ == quoted(s@),
{
    let mut text = "\"".to_owned();
    push_text(&mut text, s.as_str());
    push_text(&mut text, "\"");
    text
}

/// The text of an error after the given label.
fn error_string(label: String, message: &String, code: i32) -> (text: String)
    ensures
        text@ == error_text(label@, message@, code),
{
    let mut text = label;
    push_error(&mut text, message, code);
    text
}

impl Type {
    /// The value with its quotes and brackets, and without colour.
    pub fn to_colorless_string(&self) -> (text: String)
        ensures
            text@ == self@.colorless(),
        decreases self, 0int,
    {
        match self {
            Type::Output(output) => output.text(),
            Type::File { path, full_path, .. } => label_of(path, *full_path),
            Type::String(s) => quote(s),
            Type::Array(items) => {
                proof {
                    lemma_array_view(items);
                }
                array_to_string(items, false)
            },
            Type::Integer(i) => plain_text(*i),
            Type::Float(text) => text.clone(),
            Type::Boolean(b) => boolean_string(*b),
            Type::Null => "null".to_owned(),
            Type::Error { message, code } => error_string("Error: ".to_owned(), message, *code),
        }
    }

    /// The bare value: a string without quotes, and a list as its bare
    /// items, one to a line. This is what a file or a process is given.
    pub fn to_undecorated_string(&self) -> (text: String)
        ensures
            text@ == self@.undecorated(),
        decreases self, 0int,
    {
        match self {
            Type::String(s) => s.clone(),
            Type::Array(items) => {
                proof {
                    lemma_array_view(items);
                }
                array_to_lines(items)
            },
            Type::Output(output) => output.text(),
            Type::File { path, full_path, .. } => label_of(path, *full_path),
            Type::Integer(i) => plain_text(*i),
            Type::Float(text) => text.clone(),
            Type::Boolean(b) => boolean_string(*b),
            Type::Null => "null".to_owned(),
            Type::Error { message, code } => error_string("Error: ".to_owned(), message, *code),
        }
    }

    /// The value as the terminal shows it: with quotes and brackets, and
    /// with colour where the terminal takes it.
    pub fn to_string(&self) -> (text: String)
        ensures
            self@.is_decorated(text@),
        decreases self, 0int,
    {
        match self {
            Type::Output(output) => {
                let text = output.text();
                text
            },
            Type::File { path, full_path, status } => {
                let text = color_file(path, *full_path, status);
                text
            },
            Type::String(s) => {
                let text = paint(quote(s).as_str(), Paint::Green);
                text
            },
            Type::Array(items) => {
                proof {
                    lemma_array_view(items);
                }
                let text = array_to_string(items, true);
                text
            },
            Type::Integer(i) => {
                let text = paint(plain_text(*i).as_str(), Paint::Cyan);
                text
            },
            Type::Float(number) => {
                let text = paint(number.as_str(), Paint::Cyan);
                text
            },
            Type::Boolean(b) => {
                let text = color_boolean(*b);
                text
            },
            Type::Null => {
                let text = color_null();
                text
            },
            Type::Error { message, code } => {
                let label = error_label();
                let ghost shown = label@;
                let text = error_string(label, message, *code);
                text
            },
        }
    }

    /// Whether the value can name a file: a string, a file, a number or a boolean.
    pub fn is_path_shaped(&self) -> (shaped: bool)
        ensures
            shaped == self@.is_path_shaped(),
    {
        match self {
            Type::String(_) => true,
            Type::File { .. } => true,
            Type::Integer(_) => true,
            Type::Float(_) => true,
            Type::Boolean(_) => true,
            _ => false,
        }
    }
}

impl Clone for FileStatus {
    fn clone(&self) -> (copy: FileStatus)
        ensures
            copy@ == self@,
    {
        match self {
            FileStatus::Directory => FileStatus::Directory,
            FileStatus::File { executable } => FileStatus::File { executable: *executable },
            FileStatus::Other => FileStatus::Other,
            FileStatus::Unreadable(reason) => FileStatus::Unreadable(reason.clone()),
        }
    }
}

impl Clone for ProcessOutput {
    fn clone(&self) -> (copy: ProcessOutput)
        ensures
            copy@ == self@,
    {
        let stdout = self.stdout.clone();
        let stderr = self.stderr.clone();
        assert(stdout@ =~= self.stdout@);
        assert(stderr@ =~= self.stderr@);
        ProcessOutput { code: self.code, stdout, stderr }
    }
}

/// A copy of a list of values.
fn clone_values(values: &Vec<Type>) -> (copy: Vec<Type>)
    ensures
        copy.deep_view() == values.deep_view(),
    decreases values,
{
    let mut copy: Vec<Type> = Vec::new();
    let mut i: usize = 0;
    while i < values.len()
        invariant
            i <= values@.len(),
            copy@.len() == i,
            forall|j: int| 0 <= j < i ==> copy@[j]@ == values@[j]@,
        decreases values@.len() - i,
    {
        copy.push(values[i].clone());
        i = i + 1;
    }
    assert(copy.deep_view() =~= values.deep_view());
    copy
}

impl Clone for Type {
    fn clone(&self) -> (copy: Type)
        ensures
            copy@ == self@,
        decreases self,
    {
        match self {
            Type::Output(output) => Type::Output(output.clone()),
            Type::File { path, full_path, status } => Type::File {
                path: path.clone(),
                full_path: *full_path,
                status: status.clone(),
            },
            Type::String(s) => Type::String(s.clone()),
            Type::Array(items) => {
                let copy = clone_values(items);
                proof {
                    lemma_array_view(items);
                    lemma_array_view(&copy);
                }
                Type::Array(copy)
            },
            Type::Integer(i) => Type::Integer(*i),
            Type::Float(text) => Type::Float(text.clone()),
            Type::Boolean(b) => Type::Boolean(*b),
            Type::Null => Type::Null,
            Type::Error { message, code } => Type::Error { message: message.clone(), code: *code },
        }
    }
}

/// Whether two runs of bytes are the same.
fn same_bytes(a: &Vec<u8>, b: &Vec<u8>) -> (same: bool)
    ensures
        same == (a@ == b@),
{
    if a.len() != b.len() {
        return false;
    }
    let mut i: usize = 0;
    while i < a.len()
        invariant
            i <= a@.len() == b@.len(),
            forall|j: int| 0 <= j < i ==> a@[j] == b@[j],
        decreases a@.len() - i,
    {
        if a[i] != b[i] {
            return false;
        }
        i = i + 1;
    }
    assert(a@ =~= b@);
    true
}

impl Type {
    /// Whether two values are equal.
    #[verifier::loop_isolation(false)]
    pub fn same(&self, other: &Type) -> (equal: bool)
        ensures
            equal == self@.equals(other@),
        decreases self,
    {
        match (self, other) {
            (Type::Output(a), Type::Output(b)) => {
                let equal = a.code == b.code && same_bytes(&a.stdout, &b.stdout) && same_bytes(
                    &a.stderr,
                    &b.stderr,
                );
                equal
            },
            (Type::File { path: a, .. }, Type::File { path: b, .. }) => same_text(
                a.as_str(),
                b.as_str(),
            ),
            (Type::String(a), Type::String(b)) => same_text(a.as_str(), b.as_str()),
            (Type::Array(a), Type::Array(b)) => {
                proof {
                    lemma_array_view(a);
                    lemma_array_view(b);
                }
                if a.len() != b.len() {
                    return false;
                }
                let mut i: usize = 0;
                while i < a.len()
                    invariant
                        i <= a@.len() == b@.len(),
                        forall|j: int| 0 <= j < i ==> a@[j]@.equals(b@[j]@),
                    decreases a@.len() - i,
                {
                    if !a[i].same(&b[i]) {
                        assert(!a.deep_view()[i as int].equals(b.deep_view()[i as int]));
                        return false;
                    }
                    i = i + 1;
                }
                assert forall|j: int| 0 <= j < a.deep_view().len() implies (
                #[trigger] a.deep_view()[j]).equals(b.deep_view()[j]) by {
                    assert(a@[j]@.equals(b@[j]@));
                }
                true
            },
            (Type::Integer(a), Type::Integer(b)) => *a == *b,
            (Type::Float(a), Type::Float(b)) => same_text(a.as_str(), b.as_str()),
            (Type::Boolean(a), Type::Boolean(b)) => *a == *b,
            (Type::Null, Type::Null) => true,
            (Type::Error { message: a, code: c }, Type::Error { message: b, code: d }) => same_text(
                a.as_str(),
                b.as_str(),
            ) && *c == *d,
            _ => false,
        }
    }
}

impl PartialEq for Type {
    fn eq(&self, other: &Type) -> (equal: bool) {
        self.same(other)
    }
}

impl PartialEqSpecImpl for Type {
    open spec fn obeys_eq_spec() -> bool {
        true
    }

    open spec fn eq_spec(&self, other: &Type) -> bool {
        self@.equals(other@)
    }
}

} // verus!
