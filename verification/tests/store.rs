use std::collections::HashMap;

use promptforge_cli::mapping::{FileMapping, STORE_MOUNT};
use promptforge_cli::report::{render_chain, ErrorChain};
use promptforge_cli::store::{
    extract_store, extract_store_next, hold_to_promise, missing_output_text,
    seed_store, seed_store_next, ExtractPhase, ExtractReply, ExtractStep, SeedPhase, SeedStep,
    StoreAction, StoreError, StoreFile,
};

/// A store in memory, mounted or not, and a disk.
struct Host {
    mounted: bool,
    store: HashMap<String, Vec<u8>>,
    disk: HashMap<String, Vec<u8>>,
    origins: Vec<&'static str>,
}

impl Host {
    fn new() -> Host {
        Host {
            mounted: true,
            store: HashMap::new(),
            disk: HashMap::new(),
            origins: Vec::new(),
        }
    }

    fn perform(&mut self, action: StoreAction) -> ExtractReply {
        match action {
            StoreAction::Acquire { origin } => {
                self.origins.push(origin);
                ExtractReply::Done(Ok(()))
            }
            StoreAction::Probe { path } => {
                if self.mounted && path == STORE_MOUNT {
                    ExtractReply::Done(Ok(()))
                } else {
                    ExtractReply::Done(Err(ErrorChain::plain("not found".to_owned())))
                }
            }
            StoreAction::Write { path, contents } => {
                self.store.insert(path, contents.into_bytes());
                ExtractReply::Done(Ok(()))
            }
            StoreAction::Read { path } => {
                ExtractReply::Contents(self.store.get(&path).cloned().ok_or(StoreError::NotFound))
            }
            StoreAction::Save { path, bytes } => {
                self.disk.insert(path, bytes);
                ExtractReply::Done(Ok(()))
            }
        }
    }

    fn seed(
        &mut self,
        inputs: &Vec<FileMapping>,
        contents: &Vec<String>,
    ) -> Result<(), ErrorChain> {
        let mut step = seed_store(inputs);
        loop {
            match step {
                SeedStep::Next(phase, action) => {
                    let ExtractReply::Done(reply) = self.perform(action) else {
                        panic!("seeding reads nothing");
                    };
                    step = seed_store_next(inputs, contents, phase, reply);
                }
                SeedStep::Nothing | SeedStep::Seeded => return Ok(()),
                SeedStep::Failed(error) => return Err(error),
            }
        }
    }

    fn extract(&mut self, outputs: &Vec<FileMapping>) -> Result<(), ErrorChain> {
        let mut step = extract_store(outputs);
        loop {
            match step {
                ExtractStep::Next(phase, action) => {
                    let reply = self.perform(action);
                    step = extract_store_next(outputs, phase, reply);
                }
                ExtractStep::Extracted => return Ok(()),
                ExtractStep::Failed(error) => return Err(error),
            }
        }
    }
}

fn mapping(name: &str, path: &str) -> FileMapping {
    FileMapping {
        name: name.to_owned(),
        path: path.to_owned(),
    }
}

fn failure(message: &str) -> ErrorChain {
    ErrorChain::plain(message.to_owned())
}

#[test]
fn seeding_and_extraction_round_trip_through_the_store_mount() {
    let mut host = Host::new();
    let input = FileMapping::parse("paper.md=/unused").expect("parses");
    host.seed(&vec![input], &vec!["# Title\n\nbody".to_owned()])
        .expect("seeds");

    let seeded = host.store.get("/_promptforge/store/paper.md").expect("reads");
    assert_eq!(seeded, b"# Title\n\nbody");
    host.store.insert(
        "/_promptforge/store/report.json".to_owned(),
        b"{\"ok\":true}".to_vec(),
    );

    host.extract(&vec![mapping("report.json", "/out/report.json")])
        .expect("extracts");
    assert_eq!(
        host.disk.get("/out/report.json").expect("the output landed on disk"),
        b"{\"ok\":true}"
    );
    assert_eq!(
        host.origins,
        vec!["promptforge-cli --input", "promptforge-cli --output"]
    );

    let error = host
        .extract(&vec![mapping("never-written.json", "/out/never.json")])
        .expect_err("a missing output is an error");
    let text = error.message;
    assert!(text.contains("never-written.json"), "{text}");
    assert!(text.contains("store.write"), "{text}");
    assert!(error.causes.is_empty());
    assert!(!host.disk.contains_key("/out/never.json"));
}

#[test]
fn without_files_the_store_is_left_alone() {
    assert_eq!(seed_store(&Vec::new()), SeedStep::Nothing);
    assert_eq!(extract_store(&Vec::new()), ExtractStep::Extracted);
}

#[test]
fn the_last_of_two_inputs_of_one_name_stays() {
    let mut host = Host::new();
    let inputs = vec![mapping("a", "1"), mapping("b", "2"), mapping("a", "3")];
    let contents = vec!["one".to_owned(), "two".to_owned(), "three".to_owned()];
    host.seed(&inputs, &contents).expect("seeds");
    assert_eq!(host.store.len(), 2);
    assert_eq!(host.store["/_promptforge/store/a"], b"three");
    assert_eq!(host.store["/_promptforge/store/b"], b"two");
}

#[test]
fn nothing_is_written_beside_a_mount_that_moved() {
    let mut host = Host::new();
    host.mounted = false;
    let error = host
        .seed(&vec![mapping("a", "1")], &vec!["one".to_owned()])
        .expect_err("there is no mount");
    assert_eq!(
        render_chain(&error),
        "error: the run's store is not mounted at /_promptforge/store; \
         the engine's store mount moved\n  caused by: not found"
    );
    assert!(host.store.is_empty());
}

#[test]
fn every_failure_of_a_copy_is_told_apart() {
    let files = vec![mapping("a", "x"), mapping("b", "y")];
    let contents = vec![String::new(), String::new()];
    let seed = |phase: SeedPhase| {
        match seed_store_next(&files, &contents, phase, Err(failure("no"))) {
            SeedStep::Failed(error) => render_chain(&error),
            other => panic!("{other:?}"),
        }
    };
    assert_eq!(
        seed(SeedPhase::Acquire),
        "error: acquire the run's store for seeding\n  caused by: no"
    );
    assert_eq!(
        seed(SeedPhase::Write(1)),
        "error: seed the store file b for --input\n  caused by: no"
    );

    let extract = |phase: ExtractPhase, reply: ExtractReply| {
        match extract_store_next(&files, phase, reply) {
            ExtractStep::Failed(error) => render_chain(&error),
            other => panic!("{other:?}"),
        }
    };
    assert_eq!(
        extract(ExtractPhase::Acquire, ExtractReply::Done(Err(failure("no")))),
        "error: acquire the run's store for extraction\n  caused by: no"
    );
    assert_eq!(
        extract(
            ExtractPhase::Read(1),
            ExtractReply::Contents(Err(StoreError::Other(failure("no"))))
        ),
        "error: read the store file b for --output\n  caused by: no"
    );
    assert_eq!(
        extract(
            ExtractPhase::Read(1),
            ExtractReply::Contents(Err(StoreError::NotFound))
        ),
        "error: --output b: the run left no store file named \"b\"; \
         the prompt must `store.write(\"b\", ...)` before it returns"
    );
    assert_eq!(
        extract(ExtractPhase::Save(0), ExtractReply::Done(Err(failure("no")))),
        "error: write --output a to x\n  caused by: no"
    );
    assert_eq!(
        missing_output_text("n", "Q"),
        "--output n: the run left no store file named Q; \
         the prompt must `store.write(Q, ...)` before it returns"
    );
}

#[test]
fn a_file_that_was_not_written_counts_as_not_found() {
    let file = |written: bool| StoreFile {
        bytes: b"x".to_vec(),
        written,
    };
    assert_eq!(hold_to_promise(Ok(file(true))), Ok(b"x".to_vec()));
    assert_eq!(hold_to_promise(Ok(file(false))), Err(StoreError::NotFound));
    assert_eq!(
        hold_to_promise(Err(StoreError::Other(failure("no")))),
        Err(StoreError::Other(failure("no")))
    );
}
