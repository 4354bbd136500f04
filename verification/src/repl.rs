//! The interactive shell: what a line of input asks for, and what the
//! shell answers. The driver reads the lines and runs the dispatches.

use vstd::prelude::*;
use crate::command::{Archive, Attach, Command, Validate};
use crate::grammar::{grammar_after_help, grammar_name, grammar_new, grammar_subcommands};
use crate::text::{chars_of, same_text, text_of, trim_text, trimmed};

verus! {

/// The name of the shell's own command.
pub open spec fn shell_name() -> Seq<char> {
    "repl"@
}

/// The shell's own command: it runs attached to any target that matches a
/// required archive.
pub open spec fn shell_command() -> Command {
    Command::Attached {
        name: "repl",
        archive: Archive::Required,
        attach: Attach::Any,
        validate: Validate::Match,
    }
}

/// The shell's command and its grammar.
pub fn init() -> (r: (Command, clap::App<'static>))
    ensures
        r.0 == shell_command(),
        grammar_name(r.1) == shell_name(),
        grammar_after_help(r.1) is None,
        grammar_subcommands(r.1) == Seq::<(Seq<char>, Option<Seq<char>>)>::empty(),
{
    (
        Command::Attached {
            name: "repl",
            archive: Archive::Required,
            attach: Attach::Any,
            validate: Validate::Match,
        },
        grammar_new("repl"),
    )
}

/// The pieces of a text between its single blanks: one more than it has
/// blanks, empty pieces among them.
pub open spec fn split_blanks(s: Seq<char>) -> Seq<Seq<char>>
    decreases s.len(),
{
    if s.len() == 0 {
        seq![Seq::<char>::empty()]
    } else {
        let before = split_blanks(s.drop_last());
        if s.last() == ' ' {
            before.push(Seq::<char>::empty())
        } else {
            before.drop_last().push(before.last().push(s.last()))
        }
    }
}

/// What a line of input asks of the shell.
#[derive(Debug)]
pub enum Input {
    /// End the session
    Quit,
    /// Dispatch with these arguments, the program's name first
    Arguments(Vec<String>),
}

/// What a trimmed line asks for: the word `quit` ends the session, anything
/// else is split at its blanks and dispatched under the program's name.
pub open spec fn input_outcome(line: Seq<char>, r: Input) -> bool {
    if line == "quit"@ {
        r is Quit
    } else {
        match r {
            Input::Quit => false,
            Input::Arguments(args) => {
                &&& args@.len() == split_blanks(line).len() + 1
                &&& args@[0]@ == "humility"@
                &&& forall|k: int|
                    0 <= k < split_blanks(line).len() ==> (#[trigger] args@[k + 1])@ == split_blanks(
                        line,
                    )[k]
            },
        }
    }
}

/// Reads a line that is trimmed already.
pub fn parse_line(line: &str) -> (r: Input)
    ensures
        input_outcome(line@, r),
{
    if same_text(line, "quit") {
        return Input::Quit;
    }
    let chars: Vec<char> = chars_of(line);
    let mut args: Vec<String> = Vec::new();
    args.push("humility".to_owned());
    let mut word: Vec<char> = Vec::new();
    let mut i: usize = 0;
    assert(chars@.take(0) =~= Seq::<char>::empty());
    while i < chars.len()
        invariant
            i <= chars@.len(),
            args@.len() == split_blanks(chars@.take(i as int)).len(),
            args@.len() >= 1,
            args@[0]@ == "humility"@,
            word@ == split_blanks(chars@.take(i as int)).last(),
            forall|k: int|
                0 <= k < args@.len() - 1 ==> (#[trigger] args@[k + 1])@ == split_blanks(
                    chars@.take(i as int),
                )[k],
        decreases chars@.len() - i,
    {
        let ghost before = split_blanks(chars@.take(i as int));
        let c: char = chars[i];
        proof {
            let next = chars@.take(i + 1);
            assert(next.drop_last() =~= chars@.take(i as int));
            assert(next.last() == c);
        }
        if c == ' ' {
            args.push(text_of(&word));
            word = Vec::new();
        } else {
            word.push(c);
        }
        i += 1;
    }
    assert(chars@.take(i as int) =~= chars@);
    args.push(text_of(&word));
    Input::Arguments(args)
}

/// Reads a line of input: it is trimmed, and then read as `parse_line` says.
pub fn eval(input: &str) -> (r: Input)
    ensures
        input_outcome(trimmed(input@), r),
{
    parse_line(trim_text(input))
}

/// What the line source hands the shell.
#[derive(Debug)]
pub enum Signal {
    /// A line of input
    Line(String),
    /// The input has ended
    EndOfInput,
    /// The user interrupted
    Interrupt,
    /// The user asked for a clear screen
    Clear,
}

/// What the shell does on a signal.
#[derive(Debug)]
pub enum Turn {
    /// The session ends at once, with success
    Exit,
    /// The loop ends and hands success to its caller
    Stop,
    /// The screen is cleared and the loop goes on
    ClearScreen,
    /// The arguments are parsed and dispatched, and the loop goes on
    Dispatch(Vec<String>),
}

/// What the shell does on a signal: a line is read as `eval` says, the end
/// of the input and an interrupt stop the loop.
pub open spec fn turn_outcome(signal: &Signal, r: Turn) -> bool {
    match *signal {
        Signal::Line(line) => match r {
            Turn::Exit => input_outcome(trimmed(line@), Input::Quit),
            Turn::Dispatch(args) => input_outcome(trimmed(line@), Input::Arguments(args)),
            _ => false,
        },
        Signal::EndOfInput => r is Stop,
        Signal::Interrupt => r is Stop,
        Signal::Clear => r is ClearScreen,
    }
}

/// One turn of the shell's loop.
pub fn repl(signal: &Signal) -> (r: Turn)
    ensures
        turn_outcome(signal, r),
{
    match signal {
        Signal::Line(line) => match eval(line.as_str()) {
            Input::Quit => Turn::Exit,
            Input::Arguments(args) => Turn::Dispatch(args),
        },
        Signal::EndOfInput => Turn::Stop,
        Signal::Interrupt => Turn::Stop,
        Signal::Clear => Turn::ClearScreen,
    }
}

/// The terminate keyword ends the session, however it is padded, and the
/// end of the input or an interrupt stops the loop without a failure.
pub proof fn lemma_shell_ends(signal: &Signal, r: Turn)
    requires
        turn_outcome(signal, r),
    ensures
        (signal matches Signal::Line(line) && trimmed(line@) == "quit"@) ==> r is Exit,
        signal is EndOfInput || signal is Interrupt ==> r is Stop,
{
}

/// What the shell says of a dispatch: nothing of one that succeeded, and of
/// one that failed its message, in a sentence of regret.
pub open spec fn reply_text(failure: Option<Seq<char>>) -> Seq<char> {
    match failure {
        None => Seq::<char>::empty(),
        Some(message) => "I'm sorry, Dave. I'm afraid I can't understand that: '"@ + message
            + "'"@,
    }
}

/// The shell's answer to a dispatch that failed with this message, or that
/// did not fail.
pub fn reply(failure: Option<&str>) -> (text: String)
    ensures
        text@ == reply_text(
            match failure {
                Some(m) => Some(m@),
                None => None,
            },
        ),
{
    match failure {
        None => String::new(),
        Some(message) => {
            let mut text: String = "I'm sorry, Dave. I'm afraid I can't understand that: '".to_owned();
            text.append(message);
            text.append("'");
            text
        },
    }
}

/// The left part of the shell's prompt.
pub fn prompt_left() -> (text: &'static str)
    ensures
        text@ == "humility"@,
{
    "humility"
}

/// What ends the shell's prompt.
pub fn prompt_indicator() -> (text: &'static str)
    ensures
        text@ == "> "@,
{
    "> "
}

/// What begins each further line of an input of several lines.
pub fn prompt_multiline_indicator() -> (text: &'static str)
    ensures
        text@ == "... "@,
{
    "... "
}

/// The prompt of a search through the history.
pub open spec fn search_text(failing: bool, term: Seq<char>) -> Seq<char> {
    if failing {
        "(failing reverse-search: "@ + term + ") "@
    } else {
        "(reverse-search: "@ + term + ") "@
    }
}

/// The prompt of a search through the history for `term`; `failing` says
/// that the search finds nothing.
pub fn prompt_history_search_indicator(failing: bool, term: &str) -> (text: String)
    ensures
        text@ == search_text(failing, term@),
{
    let mut text: String = if failing {
        "(failing reverse-search: ".to_owned()
    } else {
        "(reverse-search: ".to_owned()
    };
    text.append(term);
    text.append(") ");
    text
}

} // verus!
