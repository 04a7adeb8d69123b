use std::collections::HashMap;

use promptforge_cli::args::RunArgs;
use promptforge_cli::configuration::{
    configuration_report, fresh_run_id, model_report, run_id,
};
use promptforge_cli::mapping::FileMapping;
use promptforge_cli::models::{ModelCatalog, ModelDescriptor};
use promptforge_cli::report::{outcome, ErrorChain, RunResult};
use promptforge_cli::requirements::Requirements;
use promptforge_cli::run::{Action, Event, Run, Step};
use promptforge_cli::settings::{Gateway, Variable};
use promptforge_cli::store::{StoreAction, StoreError, StoreFile};

fn present(text: &str) -> Variable {
    Variable::Present(text.to_owned())
}

fn failure(message: &str) -> ErrorChain {
    ErrorChain::plain(message.to_owned())
}

fn args() -> RunArgs {
    RunArgs {
        file: "p.md".to_owned(),
        args: None,
        args_file: None,
        input: Vec::new(),
        output: Vec::new(),
        verbose: false,
    }
}

fn pairs(texts: &[&str]) -> Vec<FileMapping> {
    texts
        .iter()
        .map(|text| FileMapping::parse(text).expect("a pair"))
        .collect()
}

/// A host whose engine doubles `in.txt` into `out.txt`, and that fails at the
/// action of one name.
struct Host {
    key: &'static str,
    files: HashMap<String, String>,
    args_file: String,
    declared: bool,
    satisfied: bool,
    result: Option<RunResult>,
    /// The store files that the engine writes back as they are.
    rewrites: Vec<&'static str>,
    /// The store files that the engine wrote.
    written: Vec<String>,
    fails_at: &'static str,
    store: HashMap<String, Vec<u8>>,
    disk: HashMap<String, Vec<u8>>,
    acquired: bool,
    actions: Vec<String>,
    /// What the engine is handed of the prompt.
    prompt_saw: Vec<String>,
    report: Vec<String>,
}

impl Host {
    fn new() -> Host {
        let mut files = HashMap::new();
        files.insert("/in".to_owned(), "hello\n".to_owned());
        files.insert("/é".to_owned(), "é".to_owned());
        Host {
            key: "sécret",
            files,
            args_file: "from the file".to_owned(),
            declared: true,
            satisfied: true,
            result: None,
            rewrites: Vec::new(),
            written: Vec::new(),
            fails_at: "",
            store: HashMap::new(),
            disk: HashMap::new(),
            acquired: false,
            actions: Vec::new(),
            prompt_saw: Vec::new(),
            report: Vec::new(),
        }
    }

    fn done(&self, name: &str) -> Result<(), ErrorChain> {
        if self.fails_at == name {
            Err(failure("broken"))
        } else {
            Ok(())
        }
    }

    fn write(&mut self, name: &str, bytes: Vec<u8>) {
        let path = format!("/_promptforge/store/{name}");
        self.written.push(path.clone());
        self.store.insert(path, bytes);
    }

    fn perform(&mut self, action: Action) -> Event {
        let name = format!("{action:?}");
        if matches!(
            action,
            Action::ParsePrompt { .. } | Action::Prepare { .. } | Action::Execute { .. }
        ) {
            self.prompt_saw.push(name.clone());
        }
        let name = name.split([' ', '(']).next().expect("a word").to_owned();
        let done = self.done(&name);
        self.actions.push(name);
        match action {
            Action::BuildClient
            | Action::ParsePrompt { .. }
            | Action::BuildWeb
            | Action::RegisterWeb => Event::Done(done),
            Action::MakeModelId { name } => {
                Event::ModelIdMade(done.map(|()| format!("gateway/{name}")))
            }
            Action::ReadPrompt => Event::PromptRead(done.map(|()| self.declared)),
            Action::ReadArgs => Event::TextRead(done.map(|()| self.args_file.clone())),
            Action::ReadInput { path } => Event::TextRead(
                self.files.get(&path).cloned().ok_or_else(|| failure("no such file")),
            ),
            Action::FetchCatalog => Event::CatalogFetched(done.map(|()| ModelCatalog {
                models: vec![
                    ModelDescriptor {
                        id: "gateway/first".to_owned(),
                        name: "first".to_owned(),
                        context: 4096,
                    },
                    ModelDescriptor {
                        id: "gateway/second".to_owned(),
                        name: "second".to_owned(),
                        context: 8,
                    },
                ],
            })),
            Action::Prepare { .. } => Event::Prepared(Requirements {
                satisfied: self.satisfied,
                ..Requirements::default()
            }),
            Action::Store(StoreAction::Acquire { .. }) => {
                self.acquired = true;
                Event::Done(Ok(()))
            }
            Action::Store(StoreAction::Probe { .. }) => Event::Done(Ok(())),
            Action::Store(StoreAction::Write { path, contents }) => {
                self.store.insert(path, contents.into_bytes());
                Event::Done(Ok(()))
            }
            Action::Release => {
                self.acquired = false;
                Event::Released
            }
            Action::Execute { input } => {
                assert!(!self.acquired, "access is released before the run");
                if let Some(text) = self.store.get("/_promptforge/store/in.txt").cloned() {
                    let twice = [text.clone(), text].concat();
                    self.write("out.txt", twice);
                }
                for name in self.rewrites.clone() {
                    let same = self.store[&format!("/_promptforge/store/{name}")].clone();
                    self.write(name, same);
                }
                Event::Executed(
                    self.result
                        .take()
                        .unwrap_or_else(|| RunResult::Completed(format!("args: {input}"))),
                )
            }
            Action::Store(StoreAction::Read { path }) => {
                Event::StoreRead(match self.store.get(&path).cloned() {
                    Some(bytes) => Ok(StoreFile {
                        bytes,
                        written: self.written.contains(&path),
                    }),
                    None => Err(StoreError::NotFound),
                })
            }
            Action::Store(StoreAction::Save { path, bytes }) => {
                self.disk.insert(path, bytes);
                Event::Done(Ok(()))
            }
            Action::Finish(_) => unreachable!("the run is over"),
        }
    }

    fn run(&mut self, args: RunArgs, model: &Variable) -> Result<RunResult, ErrorChain> {
        let (url, key) = (present("http://gw/v1"), present(self.key));
        let Step { mut run, report, mut action } =
            Run::start(args, &url, &key, model, "cli-0".to_owned())?;
        assert!(report.is_empty());
        loop {
            if let Action::Finish(result) = action {
                return result;
            }
            assert_eq!(run.gateway().url, "http://gw/v1");
            let event = self.perform(action);
            let step = run.step(event);
            self.report.extend(step.report);
            run = step.run;
            action = step.action;
        }
    }

    fn stderr(&mut self, args: RunArgs, model: &Variable) -> String {
        let (out, err, code) = outcome(self.run(args, model));
        assert_eq!((out, code), (None, 1));
        err.expect("an error has a text")
    }
}

#[test]
fn a_bare_run_asks_for_what_it_needs_and_no_more() {
    let mut host = Host::new();
    let result = host.run(args(), &Variable::NotPresent);
    assert_eq!(result, Ok(RunResult::Completed("args: ".to_owned())));
    assert_eq!(
        host.actions,
        vec![
            "BuildClient",
            "ReadPrompt",
            "ParsePrompt",
            "FetchCatalog",
            "BuildWeb",
            "RegisterWeb",
            "Prepare",
            "Execute",
        ]
    );
    assert!(host.report.is_empty());
}

#[test]
fn files_go_in_before_the_run_and_come_out_after_it() {
    let mut host = Host::new();
    let args = RunArgs {
        input: pairs(&["in.txt=/in", "é.md=/é"]),
        output: pairs(&["out.txt=/out"]),
        ..args()
    };
    let result = host.run(args, &present("second"));
    assert_eq!(result, Ok(RunResult::Completed("args: ".to_owned())));
    assert_eq!(host.disk["/out"], b"hello\nhello\n");
    assert_eq!(host.store["/_promptforge/store/é.md"], "é".as_bytes());
    assert_eq!(
        host.actions,
        vec![
            "BuildClient",
            "ReadPrompt",
            "ReadInput",
            "ReadInput",
            "ParsePrompt",
            "FetchCatalog",
            "MakeModelId",
            "BuildWeb",
            "RegisterWeb",
            "Prepare",
            "Store",
            "Store",
            "Store",
            "Store",
            "Release",
            "Execute",
            "Store",
            "Store",
            "Store",
        ]
    );
}

#[test]
fn the_input_comes_from_the_text_or_from_the_file() {
    let text = RunArgs {
        args: Some("hi".to_owned()),
        ..args()
    };
    assert_eq!(
        Host::new().run(text, &Variable::NotPresent),
        Ok(RunResult::Completed("args: hi".to_owned()))
    );
    let file = RunArgs {
        args_file: Some("in.txt".to_owned()),
        ..args()
    };
    assert_eq!(
        Host::new().run(file, &Variable::NotPresent),
        Ok(RunResult::Completed("args: from the file".to_owned()))
    );
}

#[test]
fn a_missing_input_fails_before_the_gateway_is_asked() {
    let mut host = Host::new();
    let args = RunArgs {
        input: pairs(&["in.txt=/in", "b=/gone"]),
        ..args()
    };
    assert_eq!(
        host.stderr(args, &Variable::NotPresent),
        "error: read --input b from /gone\n  caused by: no such file"
    );
    assert!(!host.actions.contains(&"FetchCatalog".to_owned()));
}

#[test]
fn nothing_is_extracted_after_a_failed_or_cancelled_run() {
    let output = || RunArgs {
        output: pairs(&["in.txt=/out"]),
        ..args()
    };
    let mut host = Host::new();
    host.result = Some(RunResult::Cancelled);
    assert_eq!(
        host.run(output(), &Variable::NotPresent),
        Ok(RunResult::Cancelled)
    );
    assert!(host.disk.is_empty());
    assert_eq!(host.actions.last().map(String::as_str), Some("Execute"));

    let mut host = Host::new();
    host.result = Some(RunResult::Failure(failure("lua")));
    assert_eq!(host.stderr(output(), &Variable::NotPresent), "error: lua");
    assert!(host.disk.is_empty());
}

#[test]
fn an_output_that_was_never_written_is_an_error() {
    let args = RunArgs {
        output: pairs(&["x.json=/x"]),
        ..args()
    };
    assert_eq!(
        Host::new().stderr(args, &Variable::NotPresent),
        "error: --output x.json: the run left no store file named \"x.json\"; \
         the prompt must `store.write(\"x.json\", ...)` before it returns"
    );
}

#[test]
fn an_input_that_the_prompt_left_alone_is_no_output() {
    let args = |output: &str| RunArgs {
        input: pairs(&["a.md=/é", "in.txt=/in", "a.md=/in"]),
        output: pairs(&["out.txt=/out", output]),
        ..args()
    };
    let missing = "error: --output a.md: the run left no store file named \"a.md\"; \
                   the prompt must `store.write(\"a.md\", ...)` before it returns";

    let mut host = Host::new();
    assert_eq!(host.stderr(args("a.md=/a"), &Variable::NotPresent), missing);
    assert_eq!(host.disk["/out"], b"hello\nhello\n");
    assert!(!host.disk.contains_key("/a"));

    let mut host = Host::new();
    host.rewrites = vec!["in.txt"];
    assert_eq!(host.stderr(args("a.md=/a"), &Variable::NotPresent), missing);
    assert!(!host.disk.contains_key("/a"));
}

#[test]
fn an_input_that_the_prompt_rewrote_is_an_output() {
    let mut host = Host::new();
    let other = RunArgs {
        input: pairs(&["in.txt=/in", "out.txt=/é"]),
        output: pairs(&["out.txt=/out"]),
        ..args()
    };
    host.run(other, &Variable::NotPresent).expect("completes");
    assert_eq!(host.disk["/out"], b"hello\nhello\n");
}

#[test]
fn an_input_that_the_prompt_wrote_back_unchanged_is_an_output() {
    let mut host = Host::new();
    host.rewrites = vec!["a.md"];
    let same = RunArgs {
        input: pairs(&["a.md=/é", "a.md=/in"]),
        output: pairs(&["a.md=/a"]),
        ..args()
    };
    assert_eq!(
        host.run(same, &Variable::NotPresent),
        Ok(RunResult::Completed("args: ".to_owned()))
    );
    assert_eq!(host.disk["/a"], b"hello\n");
}

#[test]
fn the_prompt_sees_no_host_path() {
    let mut near = Host::new();
    let mut far = Host::new();
    far.files.insert("/far/away".to_owned(), "hello\n".to_owned());
    let with = |file: &str, args_file: &str, input: &str, output: &str| RunArgs {
        file: file.to_owned(),
        args_file: Some(args_file.to_owned()),
        input: pairs(&[input]),
        output: pairs(&[output]),
        ..args()
    };
    let here = with("p.md", "a.txt", "in.txt=/in", "out.txt=/out");
    let there = with("/q/p.md", "/q/a.txt", "in.txt=/far/away", "out.txt=/far/out");
    assert_eq!(
        near.run(here, &present("second")),
        far.run(there, &present("second"))
    );
    assert_eq!(near.actions, far.actions);
    assert_eq!(near.prompt_saw, far.prompt_saw);
    assert_eq!(
        near.prompt_saw,
        vec![
            "ParsePrompt { run_id: \"cli-0\", observed: false }",
            "Prepare { model: \"gateway/second\" }",
            "Execute { input: \"from the file\" }",
        ]
    );
    assert_eq!(near.store, far.store);
    assert_eq!(near.disk["/out"], far.disk["/far/out"]);
}

#[test]
fn every_failure_of_the_host_is_told_apart() {
    for (action, text) in [
        ("BuildClient", "build the gateway client"),
        ("ReadPrompt", "read prompt file p.md"),
        ("ReadArgs", "read args file in.txt"),
        ("ParsePrompt", "parse prompt file p.md"),
        ("FetchCatalog", "fetch the model catalog from http://gw/v1"),
        ("MakeModelId", "model id `second`"),
        ("BuildWeb", "build the promptforge/web capability"),
        ("RegisterWeb", "register the promptforge/web capability"),
    ] {
        let mut host = Host::new();
        host.fails_at = action;
        let args = RunArgs {
            args_file: Some("in.txt".to_owned()),
            ..args()
        };
        assert_eq!(
            host.stderr(args, &present("second")),
            format!("error: {text}\n  caused by: broken")
        );
        assert_eq!(host.actions.last().map(String::as_str), Some(action));
    }
}

#[test]
fn a_run_is_refused_without_need_of_a_failure() {
    let mut host = Host::new();
    host.declared = false;
    assert_eq!(
        host.stderr(args(), &Variable::NotPresent),
        "error: p.md is not a promptforge prompt: \
         its frontmatter declares no `promptforge:` version"
    );

    let mut host = Host::new();
    host.satisfied = false;
    assert_eq!(
        host.stderr(args(), &Variable::NotPresent),
        "error: the environment cannot satisfy this prompt:"
    );

    assert_eq!(
        Host::new().stderr(args(), &present("third")),
        "error: model `third` is not in the gateway catalog; available: first, second"
    );
}

#[test]
fn a_run_needs_a_gateway() {
    let error = Run::start(
        args(),
        &Variable::NotPresent,
        &present("k"),
        &Variable::NotPresent,
        "cli-0".to_owned(),
    )
    .err()
    .expect("the URL is not set");
    assert_eq!(
        error.message,
        "PROMPTFORGE_GATEWAY_URL is not set; \
         set it to the gateway API root, e.g. http://127.0.0.1:8081/v1"
    );
}

#[test]
fn a_verbose_run_prints_its_configuration_but_not_the_key() {
    let verbose = || RunArgs {
        args: Some("a\"b".to_owned()),
        input: pairs(&["in.txt=/in", "é.md=/é"]),
        output: pairs(&["out.txt=/out"]),
        verbose: true,
        ..args()
    };
    let mut host = Host::new();
    host.run(verbose(), &Variable::NotPresent).expect("completes");
    assert_eq!(
        host.report,
        vec![
            "gateway: http://gw/v1",
            "api key: 7 characters",
            "prompt:  p.md",
            "args:    \"a\\\"b\"",
            "input:   in.txt <- /in (6 bytes)",
            "input:   é.md <- /é (2 bytes)",
            "output:  out.txt -> /out",
            "run id:  cli-0",
            "model:   first (context 4096)",
        ]
    );

    // Another key of the same length changes nothing of it.
    let mut other = Host::new();
    other.key = "1234567";
    other.run(verbose(), &Variable::NotPresent).expect("completes");
    assert_eq!(other.report, host.report);
    assert_eq!(other.actions, host.actions);

    // A prompt that does not parse prints nothing.
    let mut host = Host::new();
    host.fails_at = "ParsePrompt";
    host.run(verbose(), &Variable::NotPresent).expect_err("fails");
    assert!(host.report.is_empty());
}

#[test]
fn the_configuration_shows_an_args_file_by_its_size() {
    let gateway = Gateway {
        url: "u".to_owned(),
        key: String::new(),
    };
    let file = RunArgs {
        args_file: Some("in.txt".to_owned()),
        ..args()
    };
    let lines = configuration_report(&gateway, &file, "été", "Q", &Vec::new(), "id");
    assert_eq!(
        lines,
        vec![
            "gateway: u",
            "api key: 0 characters",
            "prompt:  p.md",
            "args:    5 bytes from in.txt",
            "run id:  id",
        ]
    );
    let lines = configuration_report(&gateway, &args(), "", "Q", &Vec::new(), "id");
    assert_eq!(lines[3], "args:    Q");
    let model = ModelDescriptor {
        id: "gateway/m".to_owned(),
        name: "m".to_owned(),
        context: 10,
    };
    assert_eq!(model_report(&model), "model:   m (context 10)");
}

#[test]
fn run_ids_are_of_one_form() {
    assert_eq!(run_id(0), "cli-0000000000000000");
    assert_eq!(run_id(0xdead_beef), "cli-00000000deadbeef");
    assert_eq!(run_id(u64::MAX), "cli-ffffffffffffffff");
    assert_ne!(run_id(1), run_id(2));
    // Not all of a few fresh ids are the same.
    let ids: Vec<String> = (0..4).map(|_| fresh_run_id()).collect();
    for id in &ids {
        let digits = id.strip_prefix("cli-").expect("the prefix");
        assert_eq!(digits.len(), 16);
        assert!(digits.chars().all(|c| c.is_ascii_hexdigit()), "{id}");
    }
    assert!(ids.iter().any(|id| *id != ids[0]));
}
