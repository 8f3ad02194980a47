//! The run configuration, its numbering mode, and how an input token names
//! a source.
use vstd::prelude::*;

verus! {

/// How output lines are numbered.
#[derive(Clone, Copy, Debug, PartialEq, Eq, Structural)]
pub enum Mode {
    /// Every line gets the next number.
    NumberAll,
    /// Non-empty lines get the next number; empty lines stay bare.
    NumberNonblank,
    /// Lines are written as they are.
    Plain,
}

/// What a run does: the inputs in order, and which numbering was asked for.
#[derive(Debug)]
pub struct Config {
    /// Input tokens; `-` stands for standard input.
    pub files: Vec<String>,
    /// Number every line.
    pub number_lines: bool,
    /// Number non-empty lines only.
    pub number_nonblank_lines: bool,
}

/// The mode that a pair of flags selects: numbering all lines wins over
/// numbering nonblank lines.
pub open spec fn mode_of(number_lines: bool, number_nonblank_lines: bool) -> Mode {
    if number_lines {
        Mode::NumberAll
    } else if number_nonblank_lines {
        Mode::NumberNonblank
    } else {
        Mode::Plain
    }
}

impl Config {
    /// The input tokens as character sequences.
    pub open spec fn file_names(&self) -> Seq<Seq<char>> {
        self.files@.map_values(|f: String| f@)
    }

    /// Builds a configuration from its inputs and flags.
    pub fn new(files: Vec<String>, number_lines: bool, number_nonblank_lines: bool) -> (r: Config)
        ensures
            r.files@ == files@,
            r.number_lines == number_lines,
            r.number_nonblank_lines == number_nonblank_lines,
    {
        Config { files, number_lines, number_nonblank_lines }
    }

    /// Returns the numbering mode that the flags select.
    pub fn mode(&self) -> (r: Mode)
        ensures
            r == mode_of(self.number_lines, self.number_nonblank_lines),
    {
        if self.number_lines {
            Mode::NumberAll
        } else if self.number_nonblank_lines {
            Mode::NumberNonblank
        } else {
            Mode::Plain
        }
    }
}

/// Where the lines of an input come from.
#[derive(Clone, Debug, PartialEq, Eq)]
pub enum Source {
    /// The process's standard input.
    Stdin,
    /// A file at this path.
    Path(String),
}

/// The token that stands for standard input.
pub open spec fn stdin_token() -> Seq<char> {
    seq!['-']
}

/// Returns the source that an input token names: `-` is standard input,
/// anything else a file path.
pub fn source_for(token: &str) -> (r: Source)
    ensures
        token@ == stdin_token() ==> r == Source::Stdin,
        token@ != stdin_token() ==> (r matches Source::Path(p) && p@ == token@),
{
    if token.unicode_len() == 1 && token.get_char(0) == '-' {
        assert(token@ =~= stdin_token());
        Source::Stdin
    } else {
        Source::Path(String::from_str(token))
    }
}

/// The diagnostic for an input that could not be opened.
pub open spec fn open_failure_text(name: Seq<char>, cause: Seq<char>) -> Seq<char> {
    "Failed to open "@ + name + ": "@ + cause
}

/// Returns the diagnostic for the input `name` that could not be opened,
/// with the cause's text.
pub fn open_failure_message(name: &str, cause: &str) -> (r: String)
    ensures
        r@ == open_failure_text(name@, cause@),
{
    let r = String::from_str("Failed to open ").concat(name).concat(": ").concat(cause);
    r
}

/// The diagnostic for an input that could not be opened holds the input's
/// name.
pub proof fn lemma_open_failure_names_input(name: Seq<char>, cause: Seq<char>)
    ensures
        ({
            let t = open_failure_text(name, cause);
            exists|i: int| 0 <= i <= t.len() - name.len() && #[trigger] t.subrange(i, i + name.len()) == name
        }),
{
    reveal_strlit("Failed to open ");
    let t = open_failure_text(name, cause);
    assert(t.subrange(15, 15 + name.len() as int) =~= name);
}

} // verus!
