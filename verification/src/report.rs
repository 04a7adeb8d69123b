//! What a run ends with, and how that is told to the operator.

use vstd::prelude::*;
use vstd::string::*;

#[allow(unused_imports)]
use crate::text::texts;

verus! {

/// The exit status of a run that produced its text.
pub const EXIT_SUCCESS: u8 = 0;

/// The exit status of a run that the operator interrupted with Ctrl-C.
pub const EXIT_CANCELLED: u8 = 130;

/// The exit status of every other failure.
pub const EXIT_FAILURE: u8 = 1;

/// An error and the chain of its causes, each as the message it displays.
#[derive(Debug, PartialEq, Eq)]
pub struct ErrorChain {
    /// The error's own message.
    pub message: String,
    /// The messages of its causes, the nearest first.
    pub causes: Vec<String>,
}

/// A chain as mathematics sees it.
#[verifier::ext_equal]
pub struct ErrorView {
    pub message: Seq<char>,
    pub causes: Seq<Seq<char>>,
}

impl View for ErrorChain {
    type V = ErrorView;

    open spec fn view(&self) -> ErrorView {
        ErrorView { message: self.message@, causes: texts(self.causes@) }
    }
}

/// An error without a cause.
pub open spec fn plain_error(message: Seq<char>) -> ErrorView {
    ErrorView { message, causes: Seq::empty() }
}

impl ErrorView {
    /// This error as the nearest cause of one with `message`.
    pub open spec fn under(self, message: Seq<char>) -> ErrorView {
        ErrorView { message, causes: seq![self.message] + self.causes }
    }
}

impl ErrorChain {
    /// An error without a cause.
    pub fn plain(message: String) -> (error: ErrorChain)
        ensures
            error@ == plain_error(message@),
    {
        let error = ErrorChain { message, causes: Vec::new() };
        proof {
            assert(error@ =~= plain_error(message@));
        }
        error
    }

    /// This error as the nearest cause of one with `message`.
    pub fn under(self, message: String) -> (error: ErrorChain)
        ensures
            error@ == self@.under(message@),
    {
        let ghost before = self@;
        let ErrorChain { message: cause, mut causes } = self;
        causes.insert(0, cause);
        let error = ErrorChain { message, causes };
        proof {
            assert(error@.causes =~= before.under(message@).causes);
        }
        error
    }
}

/// The lines about the causes.
pub open spec fn rendered_causes(causes: Seq<Seq<char>>) -> Seq<char>
    decreases causes.len(),
{
    if causes.len() == 0 {
        Seq::empty()
    } else {
        rendered_causes(causes.drop_last()) + ("\n  caused by: "@ + causes.last())
    }
}

/// An error and its causes, one cause per line.
pub open spec fn rendered_chain(error: ErrorView) -> Seq<char> {
    "error: "@ + error.message + rendered_causes(error.causes)
}

/// Renders an error and its cause chain, one cause per line.
pub fn render_chain(error: &ErrorChain) -> (text: String)
    ensures
        text@ == rendered_chain(error@),
{
    let mut text = "error: ".to_owned().concat(error.message.as_str());
    let ghost head = "error: "@ + error@.message;
    let mut next: usize = 0;
    proof {
        assert(text@ =~= head + rendered_causes(error@.causes.take(0)));
    }
    while next < error.causes.len()
        invariant
            next <= error.causes@.len(),
            error@.causes.len() == error.causes@.len(),
            text@ == head + rendered_causes(error@.causes.take(next as int)),
        decreases error.causes@.len() - next,
    {
        text.append("\n  caused by: ");
        text.append(error.causes[next].as_str());
        proof {
            let taken = error@.causes.take(next + 1);
            assert(taken.drop_last() =~= error@.causes.take(next as int));
            assert(taken.last() == error.causes@[next as int]@);
            assert(text@ =~= head + rendered_causes(taken));
        }
        next += 1;
    }
    proof {
        assert(error@.causes.take(next as int) =~= error@.causes);
    }
    text
}

/// Putting an error under another makes it the first of the causes that are
/// told, and leaves what is told of its own causes as it was.
pub proof fn law_context_comes_first(error: ErrorView, message: Seq<char>)
    ensures
        rendered_chain(error.under(message)) == "error: "@ + message + ("\n  caused by: "@
            + error.message + rendered_causes(error.causes)),
{
    lemma_first_cause(error.message, error.causes);
    assert(rendered_chain(error.under(message)) =~= "error: "@ + message + ("\n  caused by: "@
        + error.message + rendered_causes(error.causes)));
}

proof fn lemma_first_cause(first: Seq<char>, rest: Seq<Seq<char>>)
    ensures
        rendered_causes(seq![first] + rest) == "\n  caused by: "@ + first + rendered_causes(rest),
    decreases rest.len(),
{
    let all = seq![first] + rest;
    let line = "\n  caused by: "@;
    if rest.len() == 0 {
        assert(all.drop_last() =~= rest);
        assert(all.last() == first);
        assert(rendered_causes(all) =~= line + first + rendered_causes(rest));
    } else {
        lemma_first_cause(first, rest.drop_last());
        assert(all.drop_last() =~= seq![first] + rest.drop_last());
        assert(all.last() == rest.last());
        assert(rendered_causes(all) == rendered_causes(all.drop_last()) + (line + rest.last()));
        assert(rendered_causes(all) =~= line + first + rendered_causes(rest));
    }
}

/// How a run of the prompt itself ended.
#[derive(Debug, PartialEq, Eq)]
pub enum RunResult {
    /// The prompt's final text.
    Completed(String),
    /// The operator interrupted the run.
    Cancelled,
    /// The run failed.
    Failure(ErrorChain),
}

/// A result as mathematics sees it.
#[verifier::ext_equal]
pub enum ResultView {
    Completed(Seq<char>),
    Cancelled,
    Failure(ErrorView),
}

impl View for RunResult {
    type V = ResultView;

    open spec fn view(&self) -> ResultView {
        match self {
            RunResult::Completed(text) => ResultView::Completed(text@),
            RunResult::Cancelled => ResultView::Cancelled,
            RunResult::Failure(error) => ResultView::Failure(error@),
        }
    }
}

/// What a command ends with: a result of the run, or an error outside of it.
pub open spec fn ending(result: Result<RunResult, ErrorChain>) -> Result<ResultView, ErrorView> {
    match result {
        Ok(result) => Ok(result@),
        Err(error) => Err(error@),
    }
}

/// What is printed to standard output.
pub open spec fn standard_output(result: Result<ResultView, ErrorView>) -> Option<Seq<char>> {
    match result {
        Ok(ResultView::Completed(text)) => Some(text),
        _ => None,
    }
}

/// What is printed to standard error.
pub open spec fn standard_error(result: Result<ResultView, ErrorView>) -> Option<Seq<char>> {
    match result {
        Ok(ResultView::Completed(_)) => None,
        Ok(ResultView::Cancelled) => Some("cancelled"@),
        Ok(ResultView::Failure(error)) => Some(rendered_chain(error)),
        Err(error) => Some(rendered_chain(error)),
    }
}

/// The exit status.
pub open spec fn exit_status(result: Result<ResultView, ErrorView>) -> u8 {
    match result {
        Ok(ResultView::Completed(_)) => EXIT_SUCCESS,
        Ok(ResultView::Cancelled) => EXIT_CANCELLED,
        _ => EXIT_FAILURE,
    }
}

/// Maps the ending of a command to the text printed and the exit status: first
/// the text for standard output, then the text for standard error.
pub fn outcome(result: Result<RunResult, ErrorChain>) -> (res: (Option<String>, Option<String>, u8))
    ensures
        crate::text::optional_text(res.0) == standard_output(ending(result)),
        crate::text::optional_text(res.1) == standard_error(ending(result)),
        res.2 == exit_status(ending(result)),
{
    match result {
        Ok(RunResult::Completed(text)) => (Some(text), None, EXIT_SUCCESS),
        Ok(RunResult::Cancelled) => (None, Some("cancelled".to_owned()), EXIT_CANCELLED),
        Ok(RunResult::Failure(error)) => (None, Some(render_chain(&error)), EXIT_FAILURE),
        Err(error) => (None, Some(render_chain(&error)), EXIT_FAILURE),
    }
}

/// Exit status: 0 on success, 130 on Ctrl-C, 1 on any other failure.
pub proof fn law_exit_status(result: Result<ResultView, ErrorView>)
    ensures
        exit_status(result) == 0 <==> result is Ok && result->Ok_0 is Completed,
        exit_status(result) == 130 <==> result is Ok && result->Ok_0 is Cancelled,
        exit_status(result) == 1 <==> exit_status(result) != 0 && exit_status(result) != 130,
{
}

/// One of the two streams gets a text and the other gets none: standard output
/// on success and standard error on everything else.
pub proof fn law_one_stream(result: Result<ResultView, ErrorView>)
    ensures
        standard_output(result) is Some <==> exit_status(result) == EXIT_SUCCESS,
        standard_error(result) is Some <==> exit_status(result) != EXIT_SUCCESS,
{
}

/// The prompt's final text goes to standard output as it is, and nothing else
/// goes anywhere.
pub proof fn law_text_is_printed_whole(text: Seq<char>)
    ensures
        standard_output(Ok(ResultView::Completed(text))) == Some(text),
        standard_error(Ok(ResultView::Completed(text))) is None,
        exit_status(Ok(ResultView::Completed(text))) == 0,
{
}

/// An interrupted run is told by one word, on standard error.
pub proof fn law_interruption_is_told()
    ensures
        standard_output(Ok(ResultView::Cancelled)) is None,
        standard_error(Ok(ResultView::Cancelled)) == Some("cancelled"@),
        exit_status(Ok(ResultView::Cancelled)) == 130,
{
}

/// A failure is told in the same way whether it happened inside the prompt or
/// outside of it: standard error gets the whole chain.
pub proof fn law_failure_is_told(error: ErrorView)
    ensures
        standard_output(Ok(ResultView::Failure(error))) is None,
        standard_output(Err(error)) is None,
        standard_error(Ok(ResultView::Failure(error))) == Some(rendered_chain(error)),
        standard_error(Err(error)) == Some(rendered_chain(error)),
        exit_status(Ok(ResultView::Failure(error))) == 1,
        exit_status(Err(error)) == 1,
{
}

/// A chain is its error's own message in one line, and each further cause adds one
/// line at the end and changes nothing before it.
pub proof fn law_each_cause_adds_a_line(
    message: Seq<char>,
    causes: Seq<Seq<char>>,
    cause: Seq<char>,
)
    ensures
        rendered_chain(ErrorView { message, causes: Seq::empty() }) == "error: "@ + message,
        rendered_chain(ErrorView { message, causes: causes.push(cause) }) == rendered_chain(
            ErrorView { message, causes },
        ) + "\n  caused by: "@ + cause,
{
    assert("error: "@ + message + rendered_causes(Seq::empty()) =~= "error: "@ + message);
    assert(causes.push(cause).drop_last() =~= causes);
    assert(rendered_chain(ErrorView { message, causes: causes.push(cause) }) =~= rendered_chain(
        ErrorView { message, causes },
    ) + "\n  caused by: "@ + cause);
}

/// An error that is put under a message keeps its own message and all its causes,
/// behind the new one; and an error without a cause has none.
pub proof fn law_context_loses_nothing(error: ErrorView, message: Seq<char>)
    ensures
        error.under(message).message == message,
        error.under(message).causes.len() == error.causes.len() + 1,
        error.under(message).causes[0] == error.message,
        error.under(message).causes.skip(1) == error.causes,
        plain_error(message).message == message,
        plain_error(message).causes.len() == 0,
{
    assert(error.under(message).causes.skip(1) =~= error.causes);
}

/// An ending is seen whole.
pub proof fn law_ending_is_seen_whole(result: Result<RunResult, ErrorChain>)
    ensures
        result matches Ok(RunResult::Completed(text)) ==> ending(result) == Ok::<_, ErrorView>(
            ResultView::Completed(text@),
        ),
        result matches Ok(RunResult::Cancelled) ==> ending(result) == Ok::<_, ErrorView>(
            ResultView::Cancelled,
        ),
        result matches Ok(RunResult::Failure(error)) ==> ending(result) == Ok::<_, ErrorView>(
            ResultView::Failure(error@),
        ),
        result matches Err(error) ==> ending(result) == Err::<ResultView, _>(error@),
        result matches Err(error) ==> {
            &&& error@.message == error.message@
            &&& error@.causes.len() == error.causes@.len()
            &&& forall|i: int|
                0 <= i < error.causes@.len() ==> #[trigger] error@.causes[i]
                    == error.causes@[i]@
        },
{
}

} // verus!
