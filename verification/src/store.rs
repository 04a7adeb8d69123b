//! The two copies between the host and the run's store: `--input` files go in
//! before the run and `--output` files come out after it.
//!
//! The store is the engine's. Each copy is a small machine that says which store
//! operation comes next and is told how it went.

use vstd::prelude::*;
use vstd::string::*;

use crate::mapping::{FileMapping, STORE_MOUNT};
#[allow(unused_imports)]
use crate::mapping::{mappings, store_location, MappingView};
use crate::report::ErrorChain;
#[allow(unused_imports)]
use crate::report::{plain_error, ErrorView};
use crate::text::quote;
#[allow(unused_imports)]
use crate::text::{quoted, texts};

verus! {

/// The origin that the store sees while files are seeded.
pub const SEED_ORIGIN: &'static str = "promptforge-cli --input";

/// The origin that the store sees while files are extracted.
pub const EXTRACT_ORIGIN: &'static str = "promptforge-cli --output";

/// An operation on the run's store, or the write of what came out of it.
#[derive(Debug, PartialEq, Eq)]
pub enum StoreAction {
    /// Acquire access to the store under this origin.
    Acquire { origin: &'static str },
    /// Ask whether there is anything at this location.
    Probe { path: String },
    /// Write a text to this location.
    Write { path: String, contents: String },
    /// Read what is at this location.
    Read { path: String },
    /// Write bytes to this host path, over what is there.
    Save { path: String, bytes: Vec<u8> },
}

/// An operation as mathematics sees it.
#[verifier::ext_equal]
pub enum StoreActionView {
    Acquire { origin: Seq<char> },
    Probe { path: Seq<char> },
    Write { path: Seq<char>, contents: Seq<char> },
    Read { path: Seq<char> },
    Save { path: Seq<char>, bytes: Seq<u8> },
}

impl View for StoreAction {
    type V = StoreActionView;

    open spec fn view(&self) -> StoreActionView {
        match self {
            StoreAction::Acquire { origin } => StoreActionView::Acquire { origin: origin@ },
            StoreAction::Probe { path } => StoreActionView::Probe { path: path@ },
            StoreAction::Write { path, contents } => StoreActionView::Write {
                path: path@,
                contents: contents@,
            },
            StoreAction::Read { path } => StoreActionView::Read { path: path@ },
            StoreAction::Save { path, bytes } => StoreActionView::Save {
                path: path@,
                bytes: bytes@,
            },
        }
    }
}

/// The outcome of an operation that gives nothing back.
pub open spec fn done_view(reply: Result<(), ErrorChain>) -> Result<(), ErrorView> {
    match reply {
        Ok(unit) => Ok(unit),
        Err(error) => Err(error@),
    }
}

/// Why the store gave no contents.
#[derive(Debug, PartialEq, Eq)]
pub enum StoreError {
    /// There is no such file.
    NotFound,
    /// The read failed.
    Other(ErrorChain),
}

/// A failed read as mathematics sees it.
#[verifier::ext_equal]
pub enum StoreErrorView {
    NotFound,
    Other(ErrorView),
}

impl View for StoreError {
    type V = StoreErrorView;

    open spec fn view(&self) -> StoreErrorView {
        match self {
            StoreError::NotFound => StoreErrorView::NotFound,
            StoreError::Other(error) => StoreErrorView::Other(error@),
        }
    }
}

/// A file that was read from the store after the run.
#[derive(Debug, PartialEq, Eq)]
pub struct StoreFile {
    /// What it holds.
    pub bytes: Vec<u8>,
    /// Whether the prompt wrote it, which the host has from the store. A file
    /// that the prompt left as it was seeded is there without having been
    /// written; one that it wrote counts as written, whatever the bytes are.
    pub written: bool,
}

/// A file as mathematics sees it.
#[verifier::ext_equal]
pub struct StoreFileView {
    pub bytes: Seq<u8>,
    pub written: bool,
}

impl View for StoreFile {
    type V = StoreFileView;

    open spec fn view(&self) -> StoreFileView {
        StoreFileView { bytes: self.bytes@, written: self.written }
    }
}

/// The outcome of the read of a file.
pub open spec fn file_view(reply: Result<StoreFile, StoreError>) -> Result<
    StoreFileView,
    StoreErrorView,
> {
    match reply {
        Ok(file) => Ok(file@),
        Err(error) => Err(error@),
    }
}

/// The outcome of the read of a file that the prompt is to have written: a file
/// that it did not write counts as one that is not there.
pub open spec fn promised(reply: Result<StoreFileView, StoreErrorView>) -> Result<
    Seq<u8>,
    StoreErrorView,
> {
    match reply {
        Ok(file) => if file.written {
            Ok(file.bytes)
        } else {
            Err(StoreErrorView::NotFound)
        },
        Err(error) => Err(error),
    }
}

/// Holds the read of a file against the promise that the prompt wrote it.
pub fn hold_to_promise(reply: Result<StoreFile, StoreError>) -> (res: Result<Vec<u8>, StoreError>)
    ensures
        contents_view(res) == promised(file_view(reply)),
{
    match reply {
        Ok(file) => if file.written {
            Ok(file.bytes)
        } else {
            Err(StoreError::NotFound)
        },
        Err(error) => Err(error),
    }
}

/// The outcome of a read.
pub open spec fn contents_view(reply: Result<Vec<u8>, StoreError>) -> Result<
    Seq<u8>,
    StoreErrorView,
> {
    match reply {
        Ok(contents) => Ok(contents@),
        Err(error) => Err(error@),
    }
}

/// Which operation of the seeding is under way.
#[derive(Debug, Clone, Copy, PartialEq, Eq, Structural)]
pub enum SeedPhase {
    /// Access is being acquired.
    Acquire,
    /// The mount is being looked for.
    Probe,
    /// The input of this index is being written.
    Write(usize),
}

/// What comes next in the seeding.
#[derive(Debug, PartialEq, Eq)]
pub enum SeedStep {
    /// The next operation.
    Next(SeedPhase, StoreAction),
    /// There is nothing to seed, and access was not acquired.
    Nothing,
    /// Every file is in the store. Access is to be released before the run.
    Seeded,
    /// The seeding failed.
    Failed(ErrorChain),
}

/// A step of the seeding as mathematics sees it.
#[verifier::ext_equal]
pub enum SeedStepView {
    Next(SeedPhase, StoreActionView),
    Nothing,
    Seeded,
    Failed(ErrorView),
}

impl View for SeedStep {
    type V = SeedStepView;

    open spec fn view(&self) -> SeedStepView {
        match self {
            SeedStep::Next(phase, action) => SeedStepView::Next(*phase, action@),
            SeedStep::Nothing => SeedStepView::Nothing,
            SeedStep::Seeded => SeedStepView::Seeded,
            SeedStep::Failed(error) => SeedStepView::Failed(error@),
        }
    }
}

/// The write of one input: its contents, under its name, below the mount.
pub open spec fn seed_write(input: MappingView, contents: Seq<char>) -> StoreActionView {
    StoreActionView::Write { path: store_location(input.name), contents }
}

/// The start of the seeding.
pub open spec fn seeding(inputs: Seq<MappingView>) -> SeedStepView {
    if inputs.len() == 0 {
        SeedStepView::Nothing
    } else {
        SeedStepView::Next(SeedPhase::Acquire, StoreActionView::Acquire { origin: SEED_ORIGIN@ })
    }
}

/// What a failure in `phase` of the seeding is reported under.
pub open spec fn seed_context(inputs: Seq<MappingView>, phase: SeedPhase) -> Seq<char> {
    match phase {
        SeedPhase::Acquire => "acquire the run's store for seeding"@,
        SeedPhase::Probe => "the run's store is not mounted at "@ + STORE_MOUNT@
            + "; the engine's store mount moved"@,
        SeedPhase::Write(i) => "seed the store file "@ + inputs[i as int].name + " for --input"@,
    }
}

/// What follows `phase` of the seeding: first the mount is looked for, so that
/// nothing is written beside it, and then every input is written in its turn.
pub open spec fn seeding_after(
    inputs: Seq<MappingView>,
    contents: Seq<Seq<char>>,
    phase: SeedPhase,
    reply: Result<(), ErrorView>,
) -> SeedStepView {
    match reply {
        Err(error) => SeedStepView::Failed(error.under(seed_context(inputs, phase))),
        Ok(_) => match phase {
            SeedPhase::Acquire => SeedStepView::Next(
                SeedPhase::Probe,
                StoreActionView::Probe { path: STORE_MOUNT@ },
            ),
            SeedPhase::Probe => SeedStepView::Next(
                SeedPhase::Write(0),
                seed_write(inputs[0], contents[0]),
            ),
            SeedPhase::Write(i) => if i + 1 < inputs.len() {
                SeedStepView::Next(
                    SeedPhase::Write((i + 1) as usize),
                    seed_write(inputs[i + 1], contents[i + 1]),
                )
            } else {
                SeedStepView::Seeded
            },
        },
    }
}

/// Whether `phase` can be under way for that many inputs.
pub open spec fn seed_phase_ok(count: nat, phase: SeedPhase) -> bool {
    &&& count > 0
    &&& phase matches SeedPhase::Write(i) ==> i < count
}

/// Starts to write every `--input` file into the run's store.
pub fn seed_store(inputs: &Vec<FileMapping>) -> (step: SeedStep)
    ensures
        step@ == seeding(mappings(inputs@)),
{
    if inputs.is_empty() {
        SeedStep::Nothing
    } else {
        SeedStep::Next(SeedPhase::Acquire, StoreAction::Acquire { origin: SEED_ORIGIN })
    }
}

/// Goes on with the seeding once the operation of `phase` has been carried out.
/// `contents` are what the inputs' host files hold.
pub fn seed_store_next(
    inputs: &Vec<FileMapping>,
    contents: &Vec<String>,
    phase: SeedPhase,
    reply: Result<(), ErrorChain>,
) -> (step: SeedStep)
    requires
        contents@.len() == inputs@.len(),
        seed_phase_ok(inputs@.len(), phase),
    ensures
        step@ == seeding_after(mappings(inputs@), texts(contents@), phase, done_view(reply)),
{
    match reply {
        Err(error) => {
            let context = match phase {
                SeedPhase::Acquire => "acquire the run's store for seeding".to_owned(),
                SeedPhase::Probe => "the run's store is not mounted at ".to_owned().concat(
                    STORE_MOUNT,
                ).concat("; the engine's store mount moved"),
                SeedPhase::Write(i) => "seed the store file ".to_owned().concat(
                    inputs[i].name.as_str(),
                ).concat(" for --input"),
            };
            SeedStep::Failed(error.under(context))
        },
        Ok(_) => match phase {
            SeedPhase::Acquire => SeedStep::Next(
                SeedPhase::Probe,
                StoreAction::Probe { path: STORE_MOUNT.to_owned() },
            ),
            SeedPhase::Probe => SeedStep::Next(
                SeedPhase::Write(0),
                StoreAction::Write { path: inputs[0].store_path(), contents: contents[0].clone() },
            ),
            SeedPhase::Write(i) => if i < inputs.len() - 1 {
                SeedStep::Next(
                    SeedPhase::Write(i + 1),
                    StoreAction::Write {
                        path: inputs[i + 1].store_path(),
                        contents: contents[i + 1].clone(),
                    },
                )
            } else {
                SeedStep::Seeded
            },
        },
    }
}

/// Which operation of the extraction is under way.
#[derive(Debug, Clone, Copy, PartialEq, Eq, Structural)]
pub enum ExtractPhase {
    /// Access is being acquired.
    Acquire,
    /// The output of this index is being read from the store.
    Read(usize),
    /// The output of this index is being written to disk.
    Save(usize),
}

/// How an operation of the extraction went.
#[derive(Debug, PartialEq, Eq)]
pub enum ExtractReply {
    /// The outcome of acquiring access or of writing to disk.
    Done(Result<(), ErrorChain>),
    /// The outcome of reading from the store.
    Contents(Result<Vec<u8>, StoreError>),
}

/// A reply as mathematics sees it.
#[verifier::ext_equal]
pub enum ExtractReplyView {
    Done(Result<(), ErrorView>),
    Contents(Result<Seq<u8>, StoreErrorView>),
}

impl View for ExtractReply {
    type V = ExtractReplyView;

    open spec fn view(&self) -> ExtractReplyView {
        match self {
            ExtractReply::Done(reply) => ExtractReplyView::Done(done_view(*reply)),
            ExtractReply::Contents(reply) => ExtractReplyView::Contents(contents_view(*reply)),
        }
    }
}

/// What comes next in the extraction.
#[derive(Debug, PartialEq, Eq)]
pub enum ExtractStep {
    /// The next operation.
    Next(ExtractPhase, StoreAction),
    /// Every output is on disk.
    Extracted,
    /// The extraction failed.
    Failed(ErrorChain),
}

/// A step of the extraction as mathematics sees it.
#[verifier::ext_equal]
pub enum ExtractStepView {
    Next(ExtractPhase, StoreActionView),
    Extracted,
    Failed(ErrorView),
}

impl View for ExtractStep {
    type V = ExtractStepView;

    open spec fn view(&self) -> ExtractStepView {
        match self {
            ExtractStep::Next(phase, action) => ExtractStepView::Next(*phase, action@),
            ExtractStep::Extracted => ExtractStepView::Extracted,
            ExtractStep::Failed(error) => ExtractStepView::Failed(error@),
        }
    }
}

/// The message about an output that the prompt never wrote, with the name also
/// in quotes.
pub open spec fn missing_output(name: Seq<char>, quoted_name: Seq<char>) -> Seq<char> {
    "--output "@ + name + ": the run left no store file named "@ + quoted_name
        + "; the prompt must `store.write("@ + quoted_name + ", ...)` before it returns"@
}

/// The read of one output from below the mount.
pub open spec fn extract_read(output: MappingView) -> StoreActionView {
    StoreActionView::Read { path: store_location(output.name) }
}

/// The start of the extraction.
pub open spec fn extraction(outputs: Seq<MappingView>) -> ExtractStepView {
    if outputs.len() == 0 {
        ExtractStepView::Extracted
    } else {
        ExtractStepView::Next(
            ExtractPhase::Acquire,
            StoreActionView::Acquire { origin: EXTRACT_ORIGIN@ },
        )
    }
}

/// What follows `phase` of the extraction: every output in its turn is read from
/// the store and what was read is written to its host path. Whether the prompt
/// wrote what was read is not asked here.
pub open spec fn extraction_after(
    outputs: Seq<MappingView>,
    phase: ExtractPhase,
    reply: ExtractReplyView,
) -> ExtractStepView {
    match (phase, reply) {
        (ExtractPhase::Acquire, ExtractReplyView::Done(Ok(_))) => ExtractStepView::Next(
            ExtractPhase::Read(0),
            extract_read(outputs[0]),
        ),
        (ExtractPhase::Acquire, ExtractReplyView::Done(Err(error))) => ExtractStepView::Failed(
            error.under("acquire the run's store for extraction"@),
        ),
        (ExtractPhase::Read(i), ExtractReplyView::Contents(Ok(contents))) => ExtractStepView::Next(
            ExtractPhase::Save(i),
            StoreActionView::Save { path: outputs[i as int].path, bytes: contents },
        ),
        (
            ExtractPhase::Read(i),
            ExtractReplyView::Contents(Err(StoreErrorView::NotFound)),
        ) => ExtractStepView::Failed(
            plain_error(
                missing_output(outputs[i as int].name, quoted(outputs[i as int].name)),
            ),
        ),
        (
            ExtractPhase::Read(i),
            ExtractReplyView::Contents(Err(StoreErrorView::Other(error))),
        ) => ExtractStepView::Failed(
            error.under("read the store file "@ + outputs[i as int].name + " for --output"@),
        ),
        (ExtractPhase::Save(i), ExtractReplyView::Done(Ok(_))) => if i + 1 < outputs.len() {
            ExtractStepView::Next(
                ExtractPhase::Read((i + 1) as usize),
                extract_read(outputs[i + 1]),
            )
        } else {
            ExtractStepView::Extracted
        },
        (ExtractPhase::Save(i), ExtractReplyView::Done(Err(error))) => ExtractStepView::Failed(
            error.under(
                "write --output "@ + outputs[i as int].name + " to "@ + outputs[i as int].path,
            ),
        ),
        _ => arbitrary(),
    }
}

/// Whether `phase` can be under way for that many outputs.
pub open spec fn extract_phase_ok(count: nat, phase: ExtractPhase) -> bool {
    &&& count > 0
    &&& phase matches ExtractPhase::Read(i) ==> i < count
    &&& phase matches ExtractPhase::Save(i) ==> i < count
}

/// Whether `reply` answers the operation of `phase`.
pub open spec fn extract_answers(phase: ExtractPhase, reply: ExtractReplyView) -> bool {
    phase is Read <==> reply is Contents
}

/// The message about an output that the prompt never wrote, with the name also
/// in quotes.
pub fn missing_output_text(name: &str, quoted_name: &str) -> (text: String)
    ensures
        text@ == missing_output(name@, quoted_name@),
{
    "--output ".to_owned().concat(name).concat(": the run left no store file named ").concat(
        quoted_name,
    ).concat("; the prompt must `store.write(").concat(quoted_name).concat(
        ", ...)` before it returns",
    )
}

/// Starts to copy every `--output` store file to its host path.
pub fn extract_store(outputs: &Vec<FileMapping>) -> (step: ExtractStep)
    ensures
        step@ == extraction(mappings(outputs@)),
{
    if outputs.is_empty() {
        ExtractStep::Extracted
    } else {
        ExtractStep::Next(
            ExtractPhase::Acquire,
            StoreAction::Acquire { origin: EXTRACT_ORIGIN },
        )
    }
}

/// Goes on with the extraction once the operation of `phase` has been carried
/// out. A store file that was not found is an error naming what was promised,
/// not a bare not-found.
pub fn extract_store_next(
    outputs: &Vec<FileMapping>,
    phase: ExtractPhase,
    reply: ExtractReply,
) -> (step: ExtractStep)
    requires
        extract_phase_ok(outputs@.len(), phase),
        extract_answers(phase, reply@),
    ensures
        step@ == extraction_after(mappings(outputs@), phase, reply@),
{
    match reply {
        ExtractReply::Done(Ok(_)) => match phase {
            ExtractPhase::Save(i) => if i < outputs.len() - 1 {
                ExtractStep::Next(
                    ExtractPhase::Read(i + 1),
                    StoreAction::Read { path: outputs[i + 1].store_path() },
                )
            } else {
                ExtractStep::Extracted
            },
            _ => ExtractStep::Next(
                ExtractPhase::Read(0),
                StoreAction::Read { path: outputs[0].store_path() },
            ),
        },
        ExtractReply::Done(Err(error)) => match phase {
            ExtractPhase::Save(i) => ExtractStep::Failed(
                error.under(
                    "write --output ".to_owned().concat(outputs[i].name.as_str()).concat(
                        " to ",
                    ).concat(outputs[i].path.as_str()),
                ),
            ),
            _ => ExtractStep::Failed(
                error.under("acquire the run's store for extraction".to_owned()),
            ),
        },
        ExtractReply::Contents(reply) => {
            let i: usize = match phase {
                ExtractPhase::Read(i) => i,
                _ => vstd::pervasive::unreached(),
            };
            let name = outputs[i].name.as_str();
            match reply {
                Ok(contents) => ExtractStep::Next(
                    ExtractPhase::Save(i),
                    StoreAction::Save { path: outputs[i].path.clone(), bytes: contents },
                ),
                Err(StoreError::NotFound) => ExtractStep::Failed(
                    ErrorChain::plain(missing_output_text(name, quote(name).as_str())),
                ),
                Err(StoreError::Other(error)) => ExtractStep::Failed(
                    error.under(
                        "read the store file ".to_owned().concat(name).concat(" for --output"),
                    ),
                ),
            }
        },
    }
}

/// Only what the prompt wrote counts as found, and it is found whole; any other
/// failure of the read stays what it was.
pub proof fn law_promise(bytes: Seq<u8>, error: StoreErrorView)
    ensures
        promised(Ok(StoreFileView { bytes, written: true })) == Ok::<_, StoreErrorView>(bytes),
        promised(Ok(StoreFileView { bytes, written: false })) == Err::<Seq<u8>, _>(
            StoreErrorView::NotFound,
        ),
        promised(Err(error)) == Err::<Seq<u8>, _>(error),
{
}

/// The message about a missing output names it, and says how to write it.
pub proof fn law_missing_output(name: Seq<char>, quoted_name: Seq<char>)
    ensures
        missing_output(name, quoted_name) == "--output "@ + name
            + ": the run left no store file named "@ + quoted_name
            + "; the prompt must `store.write("@ + quoted_name + ", ...)` before it returns"@,
{
}

} // verus!
