use clap::{Arg, ArgAction, Command};
use promptforge_cli::args::{InputSource, RunArgs};
use promptforge_cli::mapping::FileMapping;

/// Reads a command line into the arguments of a run.
fn parse(argv: &[&str]) -> Result<RunArgs, clap::Error> {
    let mappings = |name: &'static str| {
        Arg::new(name)
            .long(name)
            .action(ArgAction::Append)
            .value_parser(FileMapping::parse)
    };
    let run = Command::new("run")
        .arg(Arg::new("file").required(true))
        .arg(Arg::new("args").long("args").conflicts_with("args_file"))
        .arg(Arg::new("args_file").long("args-file"))
        .arg(mappings("input"))
        .arg(mappings("output"))
        .arg(Arg::new("verbose").short('v').long("verbose").action(ArgAction::SetTrue));
    let matches = Command::new("promptforge")
        .subcommand_required(true)
        .subcommand(run)
        .try_get_matches_from(argv)?;
    let (_, run) = matches.subcommand().expect("a subcommand is required");
    let text = |name: &str| run.get_one::<String>(name).cloned();
    let list = |name: &str| -> Vec<FileMapping> {
        run.get_many::<FileMapping>(name)
            .map(|values| values.cloned().collect())
            .unwrap_or_default()
    };
    Ok(RunArgs {
        file: text("file").expect("the file is required"),
        args: text("args"),
        args_file: text("args_file"),
        input: list("input"),
        output: list("output"),
        verbose: run.get_flag("verbose"),
    })
}

#[test]
fn the_file_alone_means_empty_args() {
    let args = parse(&["promptforge", "run", "p.md"]).expect("parses");
    assert_eq!(args.file, "p.md");
    assert_eq!(args.input_source(), InputSource::Empty);
    assert!(!args.verbose);
}

#[test]
fn args_and_args_file_select_their_sources() {
    let args = parse(&["promptforge", "run", "p.md", "--args", "hi"]).expect("parses");
    assert_eq!(args.input_source(), InputSource::Text("hi"));

    let args =
        parse(&["promptforge", "run", "p.md", "--args-file", "in.txt", "-v"]).expect("parses");
    assert_eq!(args.input_source(), InputSource::File("in.txt"));
    assert!(args.verbose);
}

#[test]
fn the_source_follows_the_flags() {
    for (args, args_file, source) in [
        (Some(""), None, InputSource::Text("")),
        (None, Some("in.txt"), InputSource::File("in.txt")),
        (None, None, InputSource::Empty),
    ] {
        let args = RunArgs {
            file: "p.md".to_owned(),
            args: args.map(str::to_owned),
            args_file: args_file.map(str::to_owned),
            input: Vec::new(),
            output: Vec::new(),
            verbose: false,
        };
        assert_eq!(args.input_source(), source);
    }
}

#[test]
fn text_on_the_command_line_comes_before_a_file() {
    let args = RunArgs {
        file: "p.md".to_owned(),
        args: Some("hi".to_owned()),
        args_file: Some("in.txt".to_owned()),
        input: Vec::new(),
        output: Vec::new(),
        verbose: false,
    };
    assert_eq!(args.input_source(), InputSource::Text("hi"));
}

#[test]
fn input_and_output_mappings_parse_and_repeat() {
    let args = parse(&[
        "promptforge",
        "run",
        "p.md",
        "--input",
        "paper.md=/data/p2300r10.md",
        "--input",
        "meta.json=/data/meta.json",
        "--output",
        "report.json=/out/report.json",
    ])
    .expect("parses");
    assert_eq!(
        args.input,
        vec![
            FileMapping {
                name: "paper.md".to_owned(),
                path: "/data/p2300r10.md".to_owned(),
            },
            FileMapping {
                name: "meta.json".to_owned(),
                path: "/data/meta.json".to_owned(),
            },
        ]
    );
    assert_eq!(args.output.len(), 1);
    assert_eq!(
        args.output[0].store_path(),
        "/_promptforge/store/report.json"
    );
    // A host path may itself contain `=`; only the first one splits.
    let mapping = FileMapping::parse("a.md=/tmp/x=y.md").expect("parses");
    assert_eq!(mapping.path, "/tmp/x=y.md");
}

#[test]
fn malformed_mappings_are_usage_errors() {
    for bad in [
        "paper.md",
        "=/tmp/x",
        "paper.md=",
        "/abs.md=/tmp/x",
        "../escape.md=/tmp/x",
        "a/../b.md=/tmp/x",
        "a\\b.md=/tmp/x",
    ] {
        assert!(FileMapping::parse(bad).is_err(), "{bad:?} must be rejected");
        assert!(
            parse(&["promptforge", "run", "p.md", "--input", bad]).is_err(),
            "{bad:?} must be rejected by clap"
        );
    }
}
