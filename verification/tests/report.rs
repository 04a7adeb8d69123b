use promptforge_cli::report::{
    outcome, render_chain, ErrorChain, RunResult, EXIT_CANCELLED, EXIT_FAILURE, EXIT_SUCCESS,
};

/// The messages of an error and of its causes.
fn chain(error: &anyhow::Error) -> ErrorChain {
    let mut messages = error.chain().map(|cause| cause.to_string());
    ErrorChain {
        message: messages.next().expect("an error has a message"),
        causes: messages.collect(),
    }
}

#[test]
fn outcomes_map_to_streams_and_exit_codes() {
    let (out, err, code) = outcome(Ok(RunResult::Completed("done".to_owned())));
    assert_eq!(out.as_deref(), Some("done"));
    assert!(err.is_none());
    assert_eq!(code, EXIT_SUCCESS);

    let (out, err, code) = outcome(Ok(RunResult::Cancelled));
    assert!(out.is_none());
    assert_eq!(err.as_deref(), Some("cancelled"));
    assert_eq!(code, EXIT_CANCELLED);

    let inner = std::io::Error::other("disk gone");
    let (out, err, code) = outcome(Err(chain(&anyhow::Error::new(inner).context("read prompt"))));
    assert!(out.is_none());
    assert_eq!(
        err.as_deref(),
        Some("error: read prompt\n  caused by: disk gone")
    );
    assert_eq!(code, EXIT_FAILURE);
}

#[test]
fn the_exit_statuses_are_those_documented() {
    assert_eq!((EXIT_SUCCESS, EXIT_CANCELLED, EXIT_FAILURE), (0, 130, 1));
    let failure = RunResult::Failure(ErrorChain::plain("no".to_owned()));
    assert_eq!(
        outcome(Ok(failure)),
        (None, Some("error: no".to_owned()), 1)
    );
}

#[test]
fn a_chain_has_one_cause_per_line() {
    let error = ErrorChain::plain("c".to_owned())
        .under("b".to_owned())
        .under("a".to_owned());
    assert_eq!(error.message, "a");
    assert_eq!(error.causes, vec!["b".to_owned(), "c".to_owned()]);
    assert_eq!(
        render_chain(&error),
        "error: a\n  caused by: b\n  caused by: c"
    );
    assert_eq!(render_chain(&ErrorChain::plain("a".to_owned())), "error: a");
}
