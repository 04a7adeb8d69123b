//! The terminal as the run's observer and as the source of its input, when the
//! host is a person at a shell.

use vstd::prelude::*;
use vstd::string::*;

verus! {

/// `line` without one line ending at its end: `\r\n` or else `\n`.
pub open spec fn without_line_ending(line: Seq<char>) -> Seq<char> {
    let n = line.len();
    if n >= 2 && line[n - 2] == '\r' && line[n - 1] == '\n' {
        line.take(n - 2)
    } else if n >= 1 && line[n - 1] == '\n' {
        line.take(n - 1)
    } else {
        line
    }
}

/// Strips one trailing line ending (`\n` or `\r\n`) from a read line.
pub fn trim_line_ending(line: &str) -> (text: &str)
    ensures
        text@ == without_line_ending(line@),
{
    let n: usize = line.unicode_len();
    if n >= 1 && line.get_char(n - 1) == '\n' {
        if n >= 2 && line.get_char(n - 2) == '\r' {
            line.substring_char(0, n - 2)
        } else {
            line.substring_char(0, n - 1)
        }
    } else {
        line
    }
}

/// What is printed to ask the operator for the input of `section`.
pub open spec fn input_prompt(section: Seq<char>) -> Seq<char> {
    "["@ + section + "] > "@
}

/// Begins to answer a prompt that asks for user input: with no terminal on
/// standard input there is none to be had, else the operator is asked with this
/// text and one line is to be read.
pub fn user_input(terminal: bool, section: &str) -> (res: Option<String>)
    ensures
        match res {
            Some(text) => terminal && text@ == input_prompt(section@),
            None => !terminal,
        },
{
    if !terminal {
        return None;
    }
    Some("[".to_owned().concat(section).concat("] > "))
}

/// The answer to a prompt that asked for user input.
#[derive(Debug, PartialEq, Eq)]
pub enum Answer {
    /// There is no input to be had.
    Unavailable,
    /// The line that the operator wrote.
    Text(String),
    /// Standard input could not be read.
    Failed(&'static str),
}

/// An answer as mathematics sees it.
#[verifier::ext_equal]
pub enum AnswerView {
    Unavailable,
    Text(Seq<char>),
    Failed(Seq<char>),
}

impl View for Answer {
    type V = AnswerView;

    open spec fn view(&self) -> AnswerView {
        match self {
            Answer::Unavailable => AnswerView::Unavailable,
            Answer::Text(text) => AnswerView::Text(text@),
            Answer::Failed(message) => AnswerView::Failed(message@),
        }
    }
}

/// The answer in a line that was read. `count` is the number of bytes read, if
/// the read did not fail; none at all is the end of the input.
pub open spec fn answered(count: Option<usize>, line: Seq<char>) -> AnswerView {
    match count {
        Some(count) => if count == 0 {
            AnswerView::Unavailable
        } else {
            AnswerView::Text(without_line_ending(line))
        },
        None => AnswerView::Failed("reading stdin failed"@),
    }
}

/// Ends answering a prompt that asks for user input, with one line read.
pub fn answer(count: Option<usize>, line: &str) -> (answer: Answer)
    ensures
        answer@ == answered(count, line@),
{
    match count {
        Some(0) => Answer::Unavailable,
        Some(_) => Answer::Text(trim_line_ending(line).to_owned()),
        None => Answer::Failed("reading stdin failed"),
    }
}

/// The line about a lifecycle event of the run.
pub open spec fn observation(
    execution: Seq<char>,
    section: Seq<char>,
    event: Seq<char>,
) -> Seq<char> {
    "["@ + execution + "] "@ + section + ": "@ + event
}

/// The line about a lifecycle event of the run, given as it is displayed.
pub fn observe(execution: &str, section: &str, event: &str) -> (line: String)
    ensures
        line@ == observation(execution@, section@, event@),
{
    "[".to_owned().concat(execution).concat("] ").concat(section).concat(": ").concat(event)
}

/// What is printed where Ctrl-C cannot be listened for.
pub open spec fn no_ctrl_c(error: Seq<char>) -> Seq<char> {
    "warning: cannot listen for Ctrl-C, run is not cancellable: "@ + error
}

/// Whether the first Ctrl-C cancels the run: it does where it was heard. Where
/// it cannot be listened for, the result is the warning about that.
pub fn ctrl_c(heard: Result<(), &str>) -> (res: Result<(), String>)
    ensures
        match heard {
            Ok(_) => res is Ok,
            Err(error) => res is Err && res->Err_0@ == no_ctrl_c(error@),
        },
{
    match heard {
        Ok(_) => Ok(()),
        Err(error) => Err(
            "warning: cannot listen for Ctrl-C, run is not cancellable: ".to_owned().concat(error),
        ),
    }
}

/// One line ending is taken off and no more: what stood before it comes back
/// whole, and a line without one is left alone.
pub proof fn law_one_line_ending(line: Seq<char>)
    ensures
        without_line_ending(line.push('\r').push('\n')) == line,
        line.len() == 0 || line.last() != '\r' ==> without_line_ending(line.push('\n')) == line,
        line.len() == 0 || line.last() != '\n' ==> without_line_ending(line) == line,
{
    assert(line.push('\r').push('\n').take(line.len() as int) =~= line);
    assert(line.push('\n').take(line.len() as int) =~= line);
}

/// The operator's line is the answer, whole but for one line ending; the end of
/// the input is no answer, and a failed read is told.
pub proof fn law_answer(count: usize, line: Seq<char>)
    ensures
        answered(Some(0), line) is Unavailable,
        count > 0 && (line.len() == 0 || line.last() != '\n') ==> answered(Some(count), line)
            == AnswerView::Text(line),
        count > 0 && (line.len() == 0 || line.last() != '\r') ==> answered(
            Some(count),
            line.push('\n'),
        ) == AnswerView::Text(line),
        count > 0 ==> answered(Some(count), line.push('\r').push('\n')) == AnswerView::Text(line),
        answered(None, line) == AnswerView::Failed("reading stdin failed"@),
{
    law_one_line_ending(line);
}

/// What is printed on the way names where it comes from and shows all of what it
/// is about.
pub proof fn law_lines_on_the_way(execution: Seq<char>, section: Seq<char>, event: Seq<char>)
    ensures
        observation(execution, section, event) == "["@ + execution + "] "@ + section + ": "@
            + event,
        input_prompt(section) == "["@ + section + "] > "@,
        no_ctrl_c(event) == "warning: cannot listen for Ctrl-C, run is not cancellable: "@ + event,
{
}

/// An answer is seen whole.
pub proof fn law_answer_is_seen_whole(answer: Answer)
    ensures
        answer is Unavailable ==> answer@ is Unavailable,
        answer matches Answer::Text(text) ==> answer@ == AnswerView::Text(text@),
        answer matches Answer::Failed(message) ==> answer@ == AnswerView::Failed(message@),
{
}

} // verus!
