use crate::text::{eq_ignore_ascii_case, same_ignoring_ascii_case, trim, trimmed};
use vstd::prelude::*;

verus! {

/// What `shlex::split` makes of a line: its words, or `None` where the
/// quoting is broken.
pub uninterp spec fn shell_words(line: Seq<char>) -> Option<Seq<Seq<char>>>;

/// Calls `shlex::split`. Believed of it: the outcome depends on the line
/// alone.
#[verifier::external_body]
fn split_shell_words(line: &str) -> (r: Option<Vec<String>>)
    ensures
        r is Some <==> shell_words(line@) is Some,
        r matches Some(words) ==> shell_words(line@) == Some(words.deep_view()),
{
    shlex::split(line)
}

/// What a line typed at the prompt asks for.
#[derive(Debug)]
pub enum Input {
    /// To leave.
    Exit,
    /// Nothing: the line holds only whitespace.
    Blank,
    /// Nothing that can be read: a quote is left open.
    BadQuoting,
    /// A command, as its words.
    Words(Vec<String>),
}

/// What a line asks for, as plain values.
pub ghost enum InputView {
    Exit,
    Blank,
    BadQuoting,
    Words(Seq<Seq<char>>),
}

impl View for Input {
    type V = InputView;

    open spec fn view(&self) -> InputView {
        match self {
            Input::Exit => InputView::Exit,
            Input::Blank => InputView::Blank,
            Input::BadQuoting => InputView::BadQuoting,
            Input::Words(words) => InputView::Words(words.deep_view()),
        }
    }
}

/// What `line` asks for. Whitespace around it does not count. The word
/// `exit`, in any case, asks to leave; an empty line asks for nothing; any
/// other line is cut into words as a shell would cut it.
pub open spec fn input_of(line: Seq<char>) -> InputView {
    let inner = trimmed(line);
    if same_ignoring_ascii_case(inner, "exit"@) {
        InputView::Exit
    } else if inner.len() == 0 {
        InputView::Blank
    } else {
        match shell_words(inner) {
            None => InputView::BadQuoting,
            Some(words) => InputView::Words(words),
        }
    }
}

/// Reads a line typed at the prompt.
pub fn read_input(line: &str) -> (input: Input)
    ensures
        input@ == input_of(line@),
{
    let line = trim(line);
    if eq_ignore_ascii_case(line, "exit") {
        return Input::Exit;
    }
    if line.is_empty() {
        return Input::Blank;
    }
    match split_shell_words(line) {
        None => Input::BadQuoting,
        Some(words) => Input::Words(words),
    }
}

} // verus!
