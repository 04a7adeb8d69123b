use promptforge_cli::terminal::{
    answer, ctrl_c, observe, trim_line_ending, user_input, Answer,
};

#[test]
fn line_endings_are_trimmed_once() {
    assert_eq!(trim_line_ending("hi\n"), "hi");
    assert_eq!(trim_line_ending("hi\r\n"), "hi");
    assert_eq!(trim_line_ending("hi"), "hi");
    assert_eq!(trim_line_ending("hi\n\n"), "hi\n");
}

#[test]
fn only_a_line_ending_is_trimmed() {
    assert_eq!(trim_line_ending(""), "");
    assert_eq!(trim_line_ending("\n"), "");
    assert_eq!(trim_line_ending("\r\n"), "");
    assert_eq!(trim_line_ending("é\r"), "é\r");
    assert_eq!(trim_line_ending("é\r\r\n"), "é\r");
}

#[test]
fn input_is_asked_for_on_a_terminal_only() {
    assert_eq!(user_input(false, "Intro"), None);
    assert_eq!(user_input(true, "Intro"), Some("[Intro] > ".to_owned()));
}

#[test]
fn one_line_is_the_answer() {
    assert_eq!(answer(Some(0), ""), Answer::Unavailable);
    assert_eq!(answer(Some(4), "yes\n"), Answer::Text("yes".to_owned()));
    assert_eq!(answer(Some(1), "\n"), Answer::Text(String::new()));
    assert_eq!(
        answer(None, ""),
        Answer::Failed("reading stdin failed")
    );
}

#[test]
fn observations_name_the_run_and_the_section() {
    assert_eq!(observe("cli-1", "Intro", "started"), "[cli-1] Intro: started");
}

#[test]
fn ctrl_c_cancels_or_warns() {
    assert_eq!(ctrl_c(Ok(())), Ok(()));
    assert_eq!(
        ctrl_c(Err("no signals")),
        Err(
            "warning: cannot listen for Ctrl-C, run is not cancellable: no signals".to_owned()
        )
    );
}
