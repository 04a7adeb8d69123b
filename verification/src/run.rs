//! One run of a prompt, from the configuration to the last output file.
//!
//! Reading files, talking to the gateway and executing the prompt are left to
//! the host. A [`Run`] says which of these comes next, is told how it went, and
//! decides what follows.

use vstd::prelude::*;
use vstd::string::*;

use crate::args::{InputSource, RunArgs};
#[allow(unused_imports)]
use crate::args::{ArgsView, SourceView};
use crate::configuration::{configuration_report, model_report};
#[allow(unused_imports)]
use crate::configuration::{configuration, model_line};
use crate::models::{select_model, ModelCatalog, ModelRequest};
#[allow(unused_imports)]
use crate::models::{optional_request, selected, ModelView, RequestView};
use crate::report::{ErrorChain, RunResult};
#[allow(unused_imports)]
use crate::report::{ending, plain_error, ErrorView, ResultView};
use crate::requirements::{render_requirements, Requirements};
#[allow(unused_imports)]
use crate::requirements::{refusal, RequirementsView};
use crate::settings::{gateway_from_env, optional_env, Gateway, Variable};
#[allow(unused_imports)]
use crate::settings::{configured_gateway, optional, GatewayView, VariableView};
use crate::store::{
    extract_store, extract_store_next, hold_to_promise, seed_store,
    seed_store_next, ExtractPhase, ExtractReply, ExtractStep, SeedPhase, SeedStep, StoreAction,
    StoreError, StoreFile,
};
#[allow(unused_imports)]
use crate::store::{
    done_view, extract_phase_ok, extraction, extraction_after,
    file_view, promised, seed_phase_ok, seeding, seeding_after, ExtractReplyView, ExtractStepView,
    SeedStepView, StoreActionView, StoreErrorView, StoreFileView,
};
use crate::text::quote;
#[allow(unused_imports)]
use crate::text::{optional_text, quoted, texts};

verus! {

/// What the host is doing for the run.
#[derive(Debug, Clone, Copy, PartialEq, Eq, Structural)]
pub enum Phase {
    /// Building the gateway client.
    Client,
    /// Reading the prompt file.
    Prompt,
    /// Reading the args file.
    ArgsFile,
    /// Reading the next input file.
    Inputs,
    /// Parsing the prompt.
    Parse,
    /// Fetching the model catalog.
    Catalog,
    /// Making the id of the requested model.
    ModelId,
    /// Building the web capability.
    Web,
    /// Registering the web capability.
    Register,
    /// Preparing the prompt's environment.
    Prepare,
    /// Seeding the store.
    Seed(SeedPhase),
    /// Releasing the access that the seeding acquired.
    Release,
    /// Executing the prompt.
    Execute,
    /// Extracting from the store.
    Extract(ExtractPhase),
    /// Nothing more: the run is over.
    Finished,
}

/// What the host is to do next.
#[derive(Debug, PartialEq, Eq)]
pub enum Action {
    /// Build the gateway client.
    BuildClient,
    /// Read the prompt file, and look for a `promptforge:` version in it.
    ReadPrompt,
    /// Read the args file.
    ReadArgs,
    /// Read the input file at this host path.
    ReadInput { path: String },
    /// Parse the prompt under this run id, observed or not.
    ParsePrompt { run_id: String, observed: bool },
    /// Fetch the model catalog from the gateway.
    FetchCatalog,
    /// Make the gateway model id of this name.
    MakeModelId { name: String },
    /// Build the web capability.
    BuildWeb,
    /// Register the web capability.
    RegisterWeb,
    /// Prepare the prompt's environment for the model with this id.
    Prepare { model: String },
    /// Carry out an operation on the store.
    Store(StoreAction),
    /// Release the access to the store.
    Release,
    /// Execute the prompt with this as its `args`.
    Execute { input: String },
    /// End with this.
    Finish(Result<RunResult, ErrorChain>),
}

/// An action as mathematics sees it.
#[verifier::ext_equal]
pub enum ActionView {
    BuildClient,
    ReadPrompt,
    ReadArgs,
    ReadInput { path: Seq<char> },
    ParsePrompt { run_id: Seq<char>, observed: bool },
    FetchCatalog,
    MakeModelId { name: Seq<char> },
    BuildWeb,
    RegisterWeb,
    Prepare { model: Seq<char> },
    Store(StoreActionView),
    Release,
    Execute { input: Seq<char> },
    Finish(Result<ResultView, ErrorView>),
}

impl View for Action {
    type V = ActionView;

    open spec fn view(&self) -> ActionView {
        match self {
            Action::BuildClient => ActionView::BuildClient,
            Action::ReadPrompt => ActionView::ReadPrompt,
            Action::ReadArgs => ActionView::ReadArgs,
            Action::ReadInput { path } => ActionView::ReadInput { path: path@ },
            Action::ParsePrompt { run_id, observed } => ActionView::ParsePrompt {
                run_id: run_id@,
                observed: *observed,
            },
            Action::FetchCatalog => ActionView::FetchCatalog,
            Action::MakeModelId { name } => ActionView::MakeModelId { name: name@ },
            Action::BuildWeb => ActionView::BuildWeb,
            Action::RegisterWeb => ActionView::RegisterWeb,
            Action::Prepare { model } => ActionView::Prepare { model: model@ },
            Action::Store(action) => ActionView::Store(action@),
            Action::Release => ActionView::Release,
            Action::Execute { input } => ActionView::Execute { input: input@ },
            Action::Finish(result) => ActionView::Finish(ending(*result)),
        }
    }
}

/// How the host's work went.
#[derive(Debug, PartialEq, Eq)]
pub enum Event {
    /// The outcome of work that gives nothing back.
    Done(Result<(), ErrorChain>),
    /// The prompt file was read or not; and whether it declares a version.
    PromptRead(Result<bool, ErrorChain>),
    /// The args file or an input file was read or not.
    TextRead(Result<String, ErrorChain>),
    /// The model catalog was fetched or not.
    CatalogFetched(Result<ModelCatalog, ErrorChain>),
    /// The gateway model id was made or not; and its text.
    ModelIdMade(Result<String, ErrorChain>),
    /// The environment was prepared, with this report on the prompt.
    Prepared(Requirements),
    /// The access to the store was released.
    Released,
    /// The prompt was executed.
    Executed(RunResult),
    /// A store file was read or not; and whether the prompt wrote it.
    StoreRead(Result<StoreFile, StoreError>),
}

/// An event as mathematics sees it.
#[verifier::ext_equal]
pub enum EventView {
    Done(Result<(), ErrorView>),
    PromptRead(Result<bool, ErrorView>),
    TextRead(Result<Seq<char>, ErrorView>),
    CatalogFetched(Result<Seq<ModelView>, ErrorView>),
    ModelIdMade(Result<Seq<char>, ErrorView>),
    Prepared(RequirementsView),
    Released,
    Executed(ResultView),
    StoreRead(Result<StoreFileView, StoreErrorView>),
}

impl View for Event {
    type V = EventView;

    open spec fn view(&self) -> EventView {
        match self {
            Event::Done(reply) => EventView::Done(done_view(*reply)),
            Event::PromptRead(Ok(declared)) => EventView::PromptRead(Ok(*declared)),
            Event::PromptRead(Err(error)) => EventView::PromptRead(Err(error@)),
            Event::TextRead(Ok(text)) => EventView::TextRead(Ok(text@)),
            Event::TextRead(Err(error)) => EventView::TextRead(Err(error@)),
            Event::CatalogFetched(Ok(catalog)) => EventView::CatalogFetched(Ok(catalog@)),
            Event::CatalogFetched(Err(error)) => EventView::CatalogFetched(Err(error@)),
            Event::ModelIdMade(Ok(id)) => EventView::ModelIdMade(Ok(id@)),
            Event::ModelIdMade(Err(error)) => EventView::ModelIdMade(Err(error@)),
            Event::Prepared(requirements) => EventView::Prepared(requirements@),
            Event::Released => EventView::Released,
            Event::Executed(result) => EventView::Executed(result@),
            Event::StoreRead(reply) => EventView::StoreRead(file_view(*reply)),
        }
    }
}

/// Whether `event` answers what the host was doing in `phase`.
pub open spec fn answers(phase: Phase, event: EventView) -> bool {
    match phase {
        Phase::Prompt => event is PromptRead,
        Phase::ArgsFile | Phase::Inputs => event is TextRead,
        Phase::Catalog => event is CatalogFetched,
        Phase::ModelId => event is ModelIdMade,
        Phase::Prepare => event is Prepared,
        Phase::Release => event is Released,
        Phase::Execute => event is Executed,
        Phase::Extract(ExtractPhase::Read(_)) => event is StoreRead,
        Phase::Finished => false,
        _ => event is Done,
    }
}

/// A run as mathematics sees it.
#[verifier::ext_equal]
pub struct RunView {
    pub args: ArgsView,
    pub gateway: GatewayView,
    /// The name of the model that the environment asks for.
    pub requested: Option<Seq<char>>,
    pub run_id: Seq<char>,
    /// What the prompt sees as `args`.
    pub input: Seq<char>,
    /// What the input files hold, as far as they have been read.
    pub contents: Seq<Seq<char>>,
    pub catalog: Seq<ModelView>,
    /// The id of the selected model.
    pub model: Seq<char>,
    /// The prompt's final text.
    pub text: Seq<char>,
    pub phase: Phase,
}

/// A run, the lines to print to standard error, and what the host is to do next.
#[verifier::ext_equal]
pub struct StepView {
    pub run: RunView,
    pub report: Seq<Seq<char>>,
    pub action: ActionView,
}

/// The run goes on in silence.
pub open spec fn go(run: RunView, phase: Phase, action: ActionView) -> StepView {
    StepView { run: RunView { phase, ..run }, report: Seq::empty(), action }
}

/// The run ends.
pub open spec fn finish(run: RunView, result: Result<ResultView, ErrorView>) -> StepView {
    go(run, Phase::Finished, ActionView::Finish(result))
}

/// The run ends with an error.
pub open spec fn fail(run: RunView, error: ErrorView) -> StepView {
    finish(run, Err(error))
}

impl RunView {
    /// What holds between any two steps: the input files are read one after the
    /// other, all of them before the prompt is parsed, and a copy that is under
    /// way is about a file that there is.
    pub open spec fn consistent(self) -> bool {
        match self.phase {
            Phase::Client | Phase::Prompt => self.contents.len() == 0,
            Phase::ArgsFile => self.contents.len() == 0 && self.args.source() is File,
            Phase::Inputs => self.contents.len() < self.args.input.len(),
            Phase::Finished => true,
            Phase::ModelId => self.all_read() && self.requested is Some,
            Phase::Seed(phase) => self.all_read() && seed_phase_ok(self.args.input.len(), phase),
            Phase::Extract(phase) => self.all_read() && extract_phase_ok(
                self.args.output.len(),
                phase,
            ),
            _ => self.all_read(),
        }
    }

    /// Whether every input file has been read.
    pub open spec fn all_read(self) -> bool {
        self.contents.len() == self.args.input.len()
    }

    /// With the run's input at hand, the next input file is read; behind the
    /// last of them the prompt is parsed.
    pub open spec fn read_on(self) -> StepView {
        if self.contents.len() < self.args.input.len() {
            go(
                self,
                Phase::Inputs,
                ActionView::ReadInput { path: self.args.input[self.contents.len() as int].path },
            )
        } else {
            go(
                self,
                Phase::Parse,
                ActionView::ParsePrompt { run_id: self.run_id, observed: self.args.verbose },
            )
        }
    }

    /// With the prompt file at hand: it must be a prompt, and then the flags say
    /// where the run's input comes from.
    pub open spec fn prompt_read(self, declared: bool) -> StepView {
        if !declared {
            fail(
                self,
                plain_error(
                    self.args.file
                        + " is not a promptforge prompt: its frontmatter declares no `promptforge:` version"@,
                ),
            )
        } else {
            match self.args.source() {
                SourceView::Text(text) => RunView { input: text, ..self }.read_on(),
                SourceView::File(_) => go(self, Phase::ArgsFile, ActionView::ReadArgs),
                SourceView::Empty => RunView { input: Seq::empty(), ..self }.read_on(),
            }
        }
    }

    /// What a failure of the host is reported under, but for the copies to and
    /// from the store.
    pub open spec fn context(self) -> Seq<char> {
        match self.phase {
            Phase::Client => "build the gateway client"@,
            Phase::Prompt => "read prompt file "@ + self.args.file,
            Phase::ArgsFile => "read args file "@ + self.args.args_file->Some_0,
            Phase::Inputs => {
                let input = self.args.input[self.contents.len() as int];
                "read --input "@ + input.name + " from "@ + input.path
            },
            Phase::Parse => "parse prompt file "@ + self.args.file,
            Phase::Catalog => "fetch the model catalog from "@ + self.gateway.url,
            Phase::ModelId => "model id `"@ + self.requested->Some_0 + "`"@,
            Phase::Web => "build the promptforge/web capability"@,
            Phase::Register => "register the promptforge/web capability"@,
            _ => arbitrary(),
        }
    }

    /// Whether the host is doing something that can fail, other than a copy to
    /// or from the store.
    pub open spec fn has_context(self) -> bool {
        match self.phase {
            Phase::Prepare | Phase::Release | Phase::Execute | Phase::Finished => false,
            Phase::Seed(_) | Phase::Extract(_) => false,
            _ => true,
        }
    }

    /// The host could not do its part.
    pub open spec fn failed(self, error: ErrorView) -> StepView {
        fail(self, error.under(self.context()))
    }

    /// With the prompt parsed, the configuration is printed where it was asked
    /// for, and the gateway is asked for its models.
    pub open spec fn parsed(self) -> StepView {
        StepView {
            report: if self.args.verbose {
                configuration(
                    self.gateway,
                    self.args,
                    self.input,
                    quoted(self.input),
                    self.contents,
                    self.run_id,
                )
            } else {
                Seq::empty()
            },
            ..go(self, Phase::Catalog, ActionView::FetchCatalog)
        }
    }

    /// With the catalog at hand, and the id of the requested model where there is
    /// one, the run's model is selected.
    pub open spec fn choose_model(self, request: Option<RequestView>) -> StepView {
        match selected(self.catalog, request) {
            Err(message) => fail(self, plain_error(message)),
            Ok(model) => StepView {
                report: if self.args.verbose {
                    seq![model_line(model)]
                } else {
                    Seq::empty()
                },
                ..go(RunView { model: model.id, ..self }, Phase::Web, ActionView::BuildWeb)
            },
        }
    }

    /// What follows a step of the seeding.
    pub open spec fn seeded(self, step: SeedStepView) -> StepView {
        match step {
            SeedStepView::Next(phase, action) => go(
                self,
                Phase::Seed(phase),
                ActionView::Store(action),
            ),
            SeedStepView::Nothing => go(
                self,
                Phase::Execute,
                ActionView::Execute { input: self.input },
            ),
            SeedStepView::Seeded => go(self, Phase::Release, ActionView::Release),
            SeedStepView::Failed(error) => fail(self, error),
        }
    }

    /// What follows a step of the extraction.
    pub open spec fn extracted(self, step: ExtractStepView) -> StepView {
        match step {
            ExtractStepView::Next(phase, action) => go(
                self,
                Phase::Extract(phase),
                ActionView::Store(action),
            ),
            ExtractStepView::Extracted => finish(self, Ok(ResultView::Completed(self.text))),
            ExtractStepView::Failed(error) => fail(self, error),
        }
    }

    /// What follows work that gives nothing back.
    pub open spec fn after_done(self, reply: Result<(), ErrorView>) -> StepView {
        match (self.phase, reply) {
            (Phase::Seed(phase), _) => self.seeded(
                seeding_after(self.args.input, self.contents, phase, reply),
            ),
            (Phase::Extract(phase), _) => self.extracted(
                extraction_after(self.args.output, phase, ExtractReplyView::Done(reply)),
            ),
            (_, Err(error)) => self.failed(error),
            (Phase::Client, Ok(_)) => go(self, Phase::Prompt, ActionView::ReadPrompt),
            (Phase::Parse, Ok(_)) => self.parsed(),
            (Phase::Web, Ok(_)) => go(self, Phase::Register, ActionView::RegisterWeb),
            (Phase::Register, Ok(_)) => go(
                self,
                Phase::Prepare,
                ActionView::Prepare { model: self.model },
            ),
            _ => arbitrary(),
        }
    }

    /// With the args file or an input file at hand, the next file is read.
    pub open spec fn text_read(self, text: Seq<char>) -> StepView {
        match self.phase {
            Phase::ArgsFile => RunView { input: text, ..self }.read_on(),
            _ => RunView { contents: self.contents.push(text), ..self }.read_on(),
        }
    }

    /// What follows `event`.
    pub open spec fn after(self, event: EventView) -> StepView {
        match event {
            EventView::Done(reply) => self.after_done(reply),
            EventView::PromptRead(Ok(declared)) => self.prompt_read(declared),
            EventView::PromptRead(Err(error)) => self.failed(error),
            EventView::TextRead(Ok(text)) => self.text_read(text),
            EventView::TextRead(Err(error)) => self.failed(error),
            EventView::CatalogFetched(Ok(catalog)) => {
                let run = RunView { catalog, ..self };
                match self.requested {
                    Some(name) => go(run, Phase::ModelId, ActionView::MakeModelId { name }),
                    None => run.choose_model(None),
                }
            },
            EventView::CatalogFetched(Err(error)) => self.failed(error),
            EventView::ModelIdMade(Ok(id)) => self.choose_model(
                Some(RequestView { name: self.requested->Some_0, id }),
            ),
            EventView::ModelIdMade(Err(error)) => self.failed(error),
            EventView::Prepared(requirements) => if requirements.satisfied {
                self.seeded(seeding(self.args.input))
            } else {
                fail(self, plain_error(refusal(requirements)))
            },
            EventView::Released => go(
                self,
                Phase::Execute,
                ActionView::Execute { input: self.input },
            ),
            EventView::Executed(ResultView::Completed(text)) => RunView { text, ..self }.extracted(
                extraction(self.args.output),
            ),
            EventView::Executed(result) => finish(self, Ok(result)),
            EventView::StoreRead(reply) => match self.phase {
                Phase::Extract(phase) => self.extracted(
                    extraction_after(
                        self.args.output,
                        phase,
                        ExtractReplyView::Contents(promised(reply)),
                    ),
                ),
                _ => arbitrary(),
            },
        }
    }
}

/// The start of a run: with the gateway configured, its client is built.
pub open spec fn started(
    args: ArgsView,
    url: VariableView,
    key: VariableView,
    model: VariableView,
    run_id: Seq<char>,
) -> Result<StepView, ErrorView> {
    match configured_gateway(url, key) {
        Err(message) => Err(plain_error(message)),
        Ok(gateway) => Ok(
            StepView {
                run: RunView {
                    args,
                    gateway,
                    requested: optional(model),
                    run_id,
                    input: Seq::empty(),
                    contents: Seq::empty(),
                    catalog: Seq::empty(),
                    model: Seq::empty(),
                    text: Seq::empty(),
                    phase: Phase::Client,
                },
                report: Seq::empty(),
                action: ActionView::BuildClient,
            },
        ),
    }
}

/// A run of one prompt.
pub struct Run {
    args: RunArgs,
    gateway: Gateway,
    requested: Option<String>,
    run_id: String,
    input: String,
    contents: Vec<String>,
    catalog: ModelCatalog,
    model: String,
    text: String,
    phase: Phase,
}

impl View for Run {
    type V = RunView;

    closed spec fn view(&self) -> RunView {
        RunView {
            args: self.args@,
            gateway: self.gateway@,
            requested: optional_text(self.requested),
            run_id: self.run_id@,
            input: self.input@,
            contents: texts(self.contents@),
            catalog: self.catalog@,
            model: self.model@,
            text: self.text@,
            phase: self.phase,
        }
    }
}

/// A run, the lines to print to standard error, and what the host is to do next.
pub struct Step {
    pub run: Run,
    pub report: Vec<String>,
    pub action: Action,
}

impl View for Step {
    type V = StepView;

    open spec fn view(&self) -> StepView {
        StepView { run: self.run@, report: texts(self.report@), action: self.action@ }
    }
}

impl Run {
    /// Starts a run with what the environment holds under the three variables.
    pub fn start(
        args: RunArgs,
        url: &Variable,
        key: &Variable,
        model: &Variable,
        run_id: String,
    ) -> (res: Result<Step, ErrorChain>)
        ensures
            match started(args@, url@, key@, model@, run_id@) {
                Ok(step) => res is Ok && res->Ok_0@ == step && res->Ok_0.run@.consistent(),
                Err(error) => res is Err && res->Err_0@ == error,
            },
    {
        match gateway_from_env(url, key) {
            Err(message) => Err(ErrorChain::plain(message)),
            Ok(gateway) => {
                let run = Run {
                    args,
                    gateway,
                    requested: optional_env(model),
                    run_id,
                    input: String::new(),
                    contents: Vec::new(),
                    catalog: ModelCatalog { models: Vec::new() },
                    model: String::new(),
                    text: String::new(),
                    phase: Phase::Client,
                };
                let step = Step { run, report: Vec::new(), action: Action::BuildClient };
                proof {
                    assert(step@ =~= started(args@, url@, key@, model@, run_id@)->Ok_0);
                }
                Ok(step)
            },
        }
    }

    /// The gateway that the run uses.
    pub fn gateway(&self) -> (gateway: &Gateway)
        ensures
            gateway@ == self@.gateway,
    {
        &self.gateway
    }

    fn go(self, phase: Phase, action: Action) -> (step: Step)
        ensures
            step@ == go(self@, phase, action@),
    {
        let step = Step { run: Run { phase, ..self }, report: Vec::new(), action };
        proof {
            assert(step@ =~= go(self@, phase, action@));
        }
        step
    }

    fn finish(self, result: Result<RunResult, ErrorChain>) -> (step: Step)
        ensures
            step@ == finish(self@, ending(result)),
    {
        self.go(Phase::Finished, Action::Finish(result))
    }

    fn fail(self, error: ErrorChain) -> (step: Step)
        ensures
            step@ == fail(self@, error@),
    {
        self.finish(Err(error))
    }

    fn read_on(self) -> (step: Step)
        ensures
            step@ == self@.read_on(),
    {
        let next: usize = self.contents.len();
        if next < self.args.input.len() {
            let path = self.args.input[next].path.clone();
            self.go(Phase::Inputs, Action::ReadInput { path })
        } else {
            let run_id = self.run_id.clone();
            let observed = self.args.verbose;
            self.go(Phase::Parse, Action::ParsePrompt { run_id, observed })
        }
    }

    fn prompt_read(self, declared: bool) -> (step: Step)
        ensures
            step@ == self@.prompt_read(declared),
    {
        if !declared {
            let message = self.args.file.clone().concat(
                " is not a promptforge prompt: its frontmatter declares no `promptforge:` version",
            );
            return self.fail(ErrorChain::plain(message));
        }
        let input: Option<String> = match self.args.input_source() {
            InputSource::Text(text) => Some(text.to_owned()),
            InputSource::File(_) => None,
            InputSource::Empty => Some(String::new()),
        };
        match input {
            Some(input) => Run { input, ..self }.read_on(),
            None => self.go(Phase::ArgsFile, Action::ReadArgs),
        }
    }

    fn parsed(self) -> (step: Step)
        requires
            self@.all_read(),
        ensures
            step@ == self@.parsed(),
    {
        let ghost before = self@;
        let report = if self.args.verbose {
            configuration_report(
                &self.gateway,
                &self.args,
                self.input.as_str(),
                quote(self.input.as_str()).as_str(),
                &self.contents,
                self.run_id.as_str(),
            )
        } else {
            Vec::new()
        };
        let step = Step { report, ..self.go(Phase::Catalog, Action::FetchCatalog) };
        proof {
            assert(step@ =~= before.parsed());
        }
        step
    }

    fn choose_model(self, request: Option<&ModelRequest>) -> (step: Step)
        ensures
            step@ == self@.choose_model(optional_request(request)),
    {
        let ghost before = self@;
        match select_model(&self.catalog, request) {
            Err(message) => self.fail(ErrorChain::plain(message)),
            Ok(model) => {
                let mut report: Vec<String> = Vec::new();
                if self.args.verbose {
                    report.push(model_report(&model));
                }
                let run = Run { model: model.id, ..self };
                let step = Step { report, ..run.go(Phase::Web, Action::BuildWeb) };
                proof {
                    assert(step@ =~= before.choose_model(optional_request(request)));
                }
                step
            },
        }
    }

    fn seeded(self, step: SeedStep) -> (res: Step)
        ensures
            res@ == self@.seeded(step@),
    {
        match step {
            SeedStep::Next(phase, action) => self.go(Phase::Seed(phase), Action::Store(action)),
            SeedStep::Nothing => self.execute(),
            SeedStep::Seeded => self.go(Phase::Release, Action::Release),
            SeedStep::Failed(error) => self.fail(error),
        }
    }

    fn execute(self) -> (step: Step)
        ensures
            step@ == go(self@, Phase::Execute, ActionView::Execute { input: self@.input }),
    {
        let input = self.input.clone();
        self.go(Phase::Execute, Action::Execute { input })
    }

    fn extracted(self, step: ExtractStep) -> (res: Step)
        ensures
            res@ == self@.extracted(step@),
    {
        match step {
            ExtractStep::Next(phase, action) => self.go(
                Phase::Extract(phase),
                Action::Store(action),
            ),
            ExtractStep::Extracted => {
                let text = self.text.clone();
                self.finish(Ok(RunResult::Completed(text)))
            },
            ExtractStep::Failed(error) => self.fail(error),
        }
    }

    fn context(&self) -> (context: String)
        requires
            self@.consistent(),
            self@.has_context(),
        ensures
            context@ == self@.context(),
    {
        match self.phase {
            Phase::Client => "build the gateway client".to_owned(),
            Phase::Prompt => "read prompt file ".to_owned().concat(self.args.file.as_str()),
            Phase::ArgsFile => match &self.args.args_file {
                Some(path) => "read args file ".to_owned().concat(path.as_str()),
                None => vstd::pervasive::unreached(),
            },
            Phase::Inputs => {
                let input = &self.args.input[self.contents.len()];
                "read --input ".to_owned().concat(input.name.as_str()).concat(" from ").concat(
                    input.path.as_str(),
                )
            },
            Phase::Parse => "parse prompt file ".to_owned().concat(self.args.file.as_str()),
            Phase::Catalog => "fetch the model catalog from ".to_owned().concat(
                self.gateway.url.as_str(),
            ),
            Phase::ModelId => match &self.requested {
                Some(name) => "model id `".to_owned().concat(name.as_str()).concat("`"),
                None => vstd::pervasive::unreached(),
            },
            Phase::Web => "build the promptforge/web capability".to_owned(),
            Phase::Register => "register the promptforge/web capability".to_owned(),
            _ => vstd::pervasive::unreached(),
        }
    }

    fn failed(self, error: ErrorChain) -> (step: Step)
        requires
            self@.consistent(),
            self@.has_context(),
        ensures
            step@ == self@.failed(error@),
    {
        let context = self.context();
        self.fail(error.under(context))
    }

    fn after_done(self, reply: Result<(), ErrorChain>) -> (step: Step)
        requires
            self@.consistent(),
            answers(self@.phase, EventView::Done(done_view(reply))),
        ensures
            step@ == self@.after_done(done_view(reply)),
    {
        match self.phase {
            Phase::Seed(phase) => {
                let step = seed_store_next(&self.args.input, &self.contents, phase, reply);
                self.seeded(step)
            },
            Phase::Extract(phase) => {
                let step = extract_store_next(
                    &self.args.output,
                    phase,
                    ExtractReply::Done(reply),
                );
                self.extracted(step)
            },
            _ => match reply {
                Err(error) => self.failed(error),
                Ok(_) => match self.phase {
                    Phase::Client => self.go(Phase::Prompt, Action::ReadPrompt),
                    Phase::Parse => self.parsed(),
                    Phase::Web => self.go(Phase::Register, Action::RegisterWeb),
                    Phase::Register => {
                        let model = self.model.clone();
                        self.go(Phase::Prepare, Action::Prepare { model })
                    },
                    _ => vstd::pervasive::unreached(),
                },
            },
        }
    }

    fn text_read(self, text: String) -> (step: Step)
        ensures
            step@ == self@.text_read(text@),
    {
        let ghost before = self@;
        match self.phase {
            Phase::ArgsFile => Run { input: text, ..self }.read_on(),
            _ => {
                let mut run = self;
                run.contents.push(text);
                proof {
                    assert(run@ =~= RunView {
                        contents: before.contents.push(text@),
                        ..before
                    });
                }
                run.read_on()
            },
        }
    }

    /// Goes on with the run once the host has done what it was to do.
    pub fn step(self, event: Event) -> (step: Step)
        requires
            self@.consistent(),
            answers(self@.phase, event@),
        ensures
            step@ == self@.after(event@),
            step.run@.consistent(),
    {
        match event {
            Event::Done(reply) => self.after_done(reply),
            Event::PromptRead(Ok(declared)) => self.prompt_read(declared),
            Event::PromptRead(Err(error)) => self.failed(error),
            Event::TextRead(Ok(text)) => self.text_read(text),
            Event::TextRead(Err(error)) => self.failed(error),
            Event::CatalogFetched(Ok(catalog)) => {
                let run = Run { catalog, ..self };
                let name: Option<String> = run.requested.clone();
                match name {
                    Some(name) => run.go(Phase::ModelId, Action::MakeModelId { name }),
                    None => run.choose_model(None),
                }
            },
            Event::CatalogFetched(Err(error)) => self.failed(error),
            Event::ModelIdMade(Ok(id)) => {
                let name: Option<String> = self.requested.clone();
                match name {
                    Some(name) => self.choose_model(Some(&ModelRequest { name, id })),
                    None => vstd::pervasive::unreached(),
                }
            },
            Event::ModelIdMade(Err(error)) => self.failed(error),
            Event::Prepared(requirements) => if requirements.is_satisfied() {
                let step = seed_store(&self.args.input);
                self.seeded(step)
            } else {
                self.fail(ErrorChain::plain(render_requirements(&requirements)))
            },
            Event::Released => self.execute(),
            Event::Executed(RunResult::Completed(text)) => {
                let run = Run { text, ..self };
                let step = extract_store(&run.args.output);
                run.extracted(step)
            },
            Event::Executed(result) => self.finish(Ok(result)),
            Event::StoreRead(reply) => match self.phase {
                Phase::Extract(phase) => {
                    let step = extract_store_next(
                        &self.args.output,
                        phase,
                        ExtractReply::Contents(hold_to_promise(reply)),
                    );
                    self.extracted(step)
                },
                _ => vstd::pervasive::unreached(),
            },
        }
    }
}

/// What the host answers is seen whole.
pub proof fn law_events_are_seen_whole(event: Event)
    ensures
        match event {
            Event::Done(Ok(_)) => event@ == EventView::Done(Ok(())),
            Event::Done(Err(error)) => event@ == EventView::Done(Err(error@)),
            Event::PromptRead(Ok(declared)) => event@ == EventView::PromptRead(Ok(declared)),
            Event::PromptRead(Err(error)) => event@ == EventView::PromptRead(Err(error@)),
            Event::TextRead(Ok(text)) => event@ == EventView::TextRead(Ok(text@)),
            Event::TextRead(Err(error)) => event@ == EventView::TextRead(Err(error@)),
            Event::CatalogFetched(Ok(catalog)) => event@ == EventView::CatalogFetched(Ok(catalog@)),
            Event::CatalogFetched(Err(error)) => event@ == EventView::CatalogFetched(Err(error@)),
            Event::ModelIdMade(Ok(id)) => event@ == EventView::ModelIdMade(Ok(id@)),
            Event::ModelIdMade(Err(error)) => event@ == EventView::ModelIdMade(Err(error@)),
            Event::Prepared(requirements) => event@ == EventView::Prepared(requirements@),
            Event::Released => event@ is Released,
            Event::Executed(RunResult::Completed(text)) => event@ == EventView::Executed(
                ResultView::Completed(text@),
            ),
            Event::Executed(RunResult::Cancelled) => event@ == EventView::Executed(
                ResultView::Cancelled,
            ),
            Event::Executed(RunResult::Failure(error)) => event@ == EventView::Executed(
                ResultView::Failure(error@),
            ),
            Event::StoreRead(Ok(file)) => {
                &&& event@ matches EventView::StoreRead(Ok(seen))
                &&& seen.bytes == file.bytes@
                &&& seen.written == file.written
            },
            Event::StoreRead(Err(StoreError::NotFound)) => event@ == EventView::StoreRead(
                Err(StoreErrorView::NotFound),
            ),
            Event::StoreRead(Err(StoreError::Other(error))) => event@ == EventView::StoreRead(
                Err(StoreErrorView::Other(error@)),
            ),
        },
{
}

/// What the host is asked for is seen whole.
pub proof fn law_actions_are_seen_whole(action: Action)
    ensures
        match action {
            Action::BuildClient => action@ is BuildClient,
            Action::ReadPrompt => action@ is ReadPrompt,
            Action::ReadArgs => action@ is ReadArgs,
            Action::ReadInput { path } => action@ == (ActionView::ReadInput { path: path@ }),
            Action::ParsePrompt { run_id, observed } => action@ == (ActionView::ParsePrompt {
                run_id: run_id@,
                observed,
            }),
            Action::FetchCatalog => action@ is FetchCatalog,
            Action::MakeModelId { name } => action@ == (ActionView::MakeModelId { name: name@ }),
            Action::BuildWeb => action@ is BuildWeb,
            Action::RegisterWeb => action@ is RegisterWeb,
            Action::Prepare { model } => action@ == (ActionView::Prepare { model: model@ }),
            Action::Store(StoreAction::Acquire { origin }) => action@ == ActionView::Store(
                StoreActionView::Acquire { origin: origin@ },
            ),
            Action::Store(StoreAction::Probe { path }) => action@ == ActionView::Store(
                StoreActionView::Probe { path: path@ },
            ),
            Action::Store(StoreAction::Write { path, contents }) => action@ == ActionView::Store(
                StoreActionView::Write { path: path@, contents: contents@ },
            ),
            Action::Store(StoreAction::Read { path }) => action@ == ActionView::Store(
                StoreActionView::Read { path: path@ },
            ),
            Action::Store(StoreAction::Save { path, bytes }) => action@ == ActionView::Store(
                StoreActionView::Save { path: path@, bytes: bytes@ },
            ),
            Action::Release => action@ is Release,
            Action::Execute { input } => action@ == (ActionView::Execute { input: input@ }),
            Action::Finish(result) => action@ == ActionView::Finish(ending(result)),
        },
{
}

} // verus!
