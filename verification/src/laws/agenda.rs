//! What a run asks its host for, from its first action to its last, told from the
//! arguments and the host's own answers.

use vstd::prelude::*;

#[allow(unused_imports)]
use crate::args::ArgsView;
#[allow(unused_imports)]
use crate::configuration::{configuration, model_line};
#[allow(unused_imports)]
use crate::laws::{exchanged, fits, is_start, lemma_shape, proper, reached};
#[allow(unused_imports)]
use crate::mapping::{law_location, MappingView};
#[allow(unused_imports)]
use crate::models::{lemma_lookup, ModelView};
#[allow(unused_imports)]
use crate::report::{ErrorView, ResultView};
#[allow(unused_imports)]
use crate::requirements::{refusal, RequirementsView};
#[allow(unused_imports)]
use crate::run::{answers, started, ActionView, EventView, Phase, RunView, StepView};
#[allow(unused_imports)]
use crate::settings::{
    configured_gateway, is_set, law_gateway_needs_both, law_optional_value, GatewayView,
    VariableView,
};
#[allow(unused_imports)]
use crate::store::{ExtractPhase, SeedPhase, StoreActionView, StoreErrorView, StoreFileView};
#[allow(unused_imports)]
use crate::text::{is_tight, join, quoted, surrounds};

verus! {

/// What the host has been asked for, the last action included.
pub open spec fn asked(first: StepView, history: Seq<EventView>) -> Seq<ActionView>
    decreases history.len(),
{
    if history.len() == 0 {
        seq![first.action]
    } else {
        asked(first, history.drop_last()).push(reached(first, history).action)
    }
}

/// The texts that the host has read, in their order.
pub open spec fn texts_read(history: Seq<EventView>) -> Seq<Seq<char>>
    decreases history.len(),
{
    if history.len() == 0 {
        Seq::empty()
    } else {
        match history.last() {
            EventView::TextRead(Ok(text)) => texts_read(history.drop_last()).push(text),
            _ => texts_read(history.drop_last()),
        }
    }
}

/// The files that the host has found in the store after the run, in their order.
pub open spec fn files_found(history: Seq<EventView>) -> Seq<Seq<u8>>
    decreases history.len(),
{
    if history.len() == 0 {
        Seq::empty()
    } else {
        match history.last() {
            EventView::StoreRead(Ok(file)) => files_found(history.drop_last()).push(file.bytes),
            _ => files_found(history.drop_last()),
        }
    }
}

/// The catalog that the host has fetched.
pub open spec fn catalog_fetched(history: Seq<EventView>) -> Option<Seq<ModelView>>
    decreases history.len(),
{
    if history.len() == 0 {
        None
    } else {
        match history.last() {
            EventView::CatalogFetched(Ok(catalog)) => Some(catalog),
            _ => catalog_fetched(history.drop_last()),
        }
    }
}

/// The model id that the host has made.
pub open spec fn id_made(history: Seq<EventView>) -> Option<Seq<char>>
    decreases history.len(),
{
    if history.len() == 0 {
        None
    } else {
        match history.last() {
            EventView::ModelIdMade(Ok(id)) => Some(id),
            _ => id_made(history.drop_last()),
        }
    }
}

/// How the prompt's execution ended, as the host told it.
pub open spec fn execution(history: Seq<EventView>) -> Option<ResultView>
    decreases history.len(),
{
    if history.len() == 0 {
        None
    } else {
        match history.last() {
            EventView::Executed(result) => Some(result),
            _ => execution(history.drop_last()),
        }
    }
}

/// Whether the prompt's input is in a file.
pub open spec fn has_args_file(args: ArgsView) -> bool {
    args.args is None && args.args_file is Some
}

/// What the prompt sees as `args`: the text of the command line, else what was
/// read first where a file is named, else nothing.
pub open spec fn prompt_args(args: ArgsView, history: Seq<EventView>) -> Seq<char> {
    match args.args {
        Some(text) => text,
        None => if args.args_file is Some {
            texts_read(history)[0]
        } else {
            Seq::empty()
        },
    }
}

/// What the input files hold.
pub open spec fn input_texts(args: ArgsView, history: Seq<EventView>) -> Seq<Seq<char>> {
    if has_args_file(args) {
        texts_read(history).skip(1)
    } else {
        texts_read(history)
    }
}

/// The id of the model that the prompt runs with: the one made of the requested
/// name, else that of the catalog's first.
pub open spec fn model_id(requested: Option<Seq<char>>, history: Seq<EventView>) -> Seq<char> {
    if requested is Some {
        id_made(history)->Some_0
    } else {
        catalog_fetched(history)->Some_0[0].id
    }
}

/// The place of a store file.
pub open spec fn place(name: Seq<char>) -> Seq<char> {
    "/_promptforge/store"@ + "/"@ + name
}

/// The files are read: the prompt, then the args file where there is one, then
/// the first `count` inputs.
pub open spec fn readings(args: ArgsView, count: nat) -> Seq<ActionView> {
    seq![ActionView::BuildClient, ActionView::ReadPrompt] + (if has_args_file(args) {
        seq![ActionView::ReadArgs]
    } else {
        Seq::empty()
    }) + Seq::new(count, |i: int| ActionView::ReadInput { path: args.input[i].path })
}

/// The prompt is parsed, the model is found, and the environment is prepared.
pub open spec fn preparations(
    args: ArgsView,
    requested: Option<Seq<char>>,
    run_id: Seq<char>,
    model: Seq<char>,
) -> Seq<ActionView> {
    seq![
        ActionView::ParsePrompt { run_id, observed: args.verbose },
        ActionView::FetchCatalog,
    ] + (match requested {
        Some(name) => seq![ActionView::MakeModelId { name }],
        None => Seq::empty(),
    }) + seq![ActionView::BuildWeb, ActionView::RegisterWeb, ActionView::Prepare { model }]
}

/// The first `count` inputs are written to the store, once the mount was seen.
pub open spec fn seeds(
    inputs: Seq<MappingView>,
    contents: Seq<Seq<char>>,
    count: nat,
) -> Seq<ActionView> {
    seq![
        ActionView::Store(StoreActionView::Acquire { origin: "promptforge-cli --input"@ }),
        ActionView::Store(StoreActionView::Probe { path: "/_promptforge/store"@ }),
    ] + Seq::new(
        count,
        |i: int|
            ActionView::Store(
                StoreActionView::Write { path: place(inputs[i].name), contents: contents[i] },
            ),
    )
}

/// The outputs are read from the store and saved, one after the other; `count` is
/// the number of reads and saves.
pub open spec fn copies(
    outputs: Seq<MappingView>,
    files: Seq<Seq<u8>>,
    count: nat,
) -> Seq<ActionView> {
    seq![
        ActionView::Store(StoreActionView::Acquire { origin: "promptforge-cli --output"@ }),
    ] + Seq::new(
        count,
        |j: int|
            if j % 2 == 0 {
                ActionView::Store(StoreActionView::Read { path: place(outputs[j / 2].name) })
            } else {
                ActionView::Store(
                    StoreActionView::Save { path: outputs[j / 2].path, bytes: files[j / 2] },
                )
            },
    )
}

/// All that comes before the prompt's execution.
pub open spec fn before_execution(
    args: ArgsView,
    requested: Option<Seq<char>>,
    run_id: Seq<char>,
    history: Seq<EventView>,
) -> Seq<ActionView> {
    let inputs = args.input;
    readings(args, inputs.len()) + preparations(
        args,
        requested,
        run_id,
        model_id(requested, history),
    ) + (if inputs.len() > 0 {
        seeds(inputs, input_texts(args, history), inputs.len()).push(ActionView::Release)
    } else {
        Seq::empty()
    })
}

/// All that comes behind it: the outputs of a run that gave its text are copied,
/// and the run ends as the execution did.
pub open spec fn after_execution(args: ArgsView, history: Seq<EventView>) -> Seq<ActionView> {
    let outputs = args.output;
    let result = execution(history)->Some_0;
    (if result is Completed && outputs.len() > 0 {
        copies(outputs, files_found(history), 2 * outputs.len())
    } else {
        Seq::empty()
    }).push(ActionView::Finish(Ok(result)))
}

/// All that a run asks for where nothing goes wrong.
pub open spec fn agenda(
    args: ArgsView,
    requested: Option<Seq<char>>,
    run_id: Seq<char>,
    history: Seq<EventView>,
) -> Seq<ActionView> {
    before_execution(args, requested, run_id, history).push(
        ActionView::Execute { input: prompt_args(args, history) },
    ) + after_execution(args, history)
}

/// The texts that the run holds are those that the host read.
spec fn holds_texts(run: RunView, history: Seq<EventView>) -> bool {
    match run.phase {
        Phase::Client | Phase::Prompt | Phase::ArgsFile => texts_read(history).len() == 0,
        Phase::Finished => true,
        _ => {
            &&& run.contents == input_texts(run.args, history)
            &&& run.input == prompt_args(run.args, history)
            &&& has_args_file(run.args) ==> texts_read(history).len() > 0
        },
    }
}

/// Whether the model of this index has this id.
pub open spec fn has_id(catalog: Seq<ModelView>, i: int, model: Seq<char>) -> bool {
    0 <= i < catalog.len() && catalog[i].id == model
}

/// Whether one of the fetched models has this id.
pub open spec fn is_offered(history: Seq<EventView>, model: Seq<char>) -> bool {
    catalog_fetched(history) matches Some(catalog) && exists|i: int| #[trigger]
        has_id(catalog, i, model)
}

/// The model that the run holds is one that the host fetched.
spec fn holds_model(run: RunView, history: Seq<EventView>) -> bool {
    match run.phase {
        Phase::ModelId => catalog_fetched(history) == Some(run.catalog),
        Phase::Web | Phase::Register | Phase::Prepare | Phase::Seed(_) | Phase::Release
        | Phase::Execute | Phase::Extract(_) => {
            &&& is_offered(history, run.model)
            &&& run.model == model_id(run.requested, history)
            &&& run.requested is Some ==> id_made(history) is Some
        },
        _ => true,
    }
}

/// The result and the files that the run holds are those that the host told of,
/// and access is released only where files were seeded.
spec fn holds_files(run: RunView, history: Seq<EventView>) -> bool {
    match run.phase {
        Phase::Extract(phase) => {
            &&& execution(history) == Some(ResultView::Completed(run.text))
            &&& match phase {
                ExtractPhase::Acquire => files_found(history).len() == 0,
                ExtractPhase::Read(i) => files_found(history).len() == i,
                ExtractPhase::Save(i) => files_found(history).len() == i + 1,
            }
        },
        Phase::Finished => true,
        Phase::Release => run.args.input.len() > 0 && files_found(history).len() == 0,
        _ => files_found(history).len() == 0,
    }
}

/// What is about to be saved is what was found last.
spec fn saves_what_was_found(step: StepView, history: Seq<EventView>) -> bool {
    step.run.phase matches Phase::Extract(ExtractPhase::Save(i)) ==> step.action
        == ActionView::Store(
        StoreActionView::Save {
            path: step.run.args.output[i as int].path,
            bytes: files_found(history).last(),
        },
    )
}

/// What was asked for before the action of the run's phase.
spec fn so_far(run: RunView, history: Seq<EventView>) -> Seq<ActionView> {
    let args = run.args;
    let read = readings(args, args.input.len());
    let prepare = preparations(args, run.requested, run.run_id, run.model);
    let n = prepare.len() as int;
    let before = before_execution(args, run.requested, run.run_id, history);
    let seed = seeds(args.input, run.contents, args.input.len());
    let executed = before.push(ActionView::Execute { input: run.input });
    let files = files_found(history);
    match run.phase {
        Phase::Client => Seq::empty(),
        Phase::Prompt => seq![ActionView::BuildClient],
        Phase::ArgsFile => seq![ActionView::BuildClient, ActionView::ReadPrompt],
        Phase::Inputs => readings(args, run.contents.len()),
        Phase::Parse => read,
        Phase::Catalog => read + prepare.take(1),
        Phase::ModelId => read + prepare.take(2),
        Phase::Web => read + prepare.take(n - 3),
        Phase::Register => read + prepare.take(n - 2),
        Phase::Prepare => read + prepare.take(n - 1),
        Phase::Seed(SeedPhase::Acquire) => read + prepare,
        Phase::Seed(SeedPhase::Probe) => read + prepare + seed.take(1),
        Phase::Seed(SeedPhase::Write(i)) => read + prepare + seed.take(2 + i),
        Phase::Release => read + prepare + seed,
        Phase::Execute => before,
        Phase::Extract(ExtractPhase::Acquire) => executed,
        Phase::Extract(ExtractPhase::Read(i)) => executed + copies(
            args.output,
            files,
            2 * i as nat,
        ),
        Phase::Extract(ExtractPhase::Save(i)) => executed + copies(
            args.output,
            files,
            2 * i as nat + 1,
        ),
        Phase::Finished => Seq::empty(),
    }
}

proof fn lemma_holds_texts(first: StepView, history: Seq<EventView>)
    requires
        is_start(first),
        proper(first, history),
    ensures
        holds_texts(reached(first, history).run, history),
    decreases history.len(),
{
    if history.len() > 0 {
        let earlier = history.drop_last();
        lemma_holds_texts(first, earlier);
        lemma_shape(first, earlier);
        lemma_shape(first, history);
        let run = reached(first, history).run;
        match reached(first, earlier).run.phase {
            Phase::Prompt => {
                if !(run.phase is Finished) {
                    assert(run.contents =~= texts_read(history));
                }
            },
            Phase::ArgsFile => {
                if let EventView::TextRead(Ok(text)) = history.last() {
                    assert(texts_read(history) =~= seq![text]);
                    assert(texts_read(history).skip(1) =~= run.contents);
                }
            },
            Phase::Inputs => {
                if let EventView::TextRead(Ok(text)) = history.last() {
                    assert(texts_read(history) == texts_read(earlier).push(text));
                    assert(input_texts(run.args, history) =~= input_texts(run.args, earlier).push(
                        text,
                    ));
                }
            },
            _ => {},
        }
    }
}

proof fn lemma_holds_model(first: StepView, history: Seq<EventView>)
    requires
        is_start(first),
        proper(first, history),
    ensures
        holds_model(reached(first, history).run, history),
    decreases history.len(),
{
    if history.len() > 0 {
        let earlier = history.drop_last();
        lemma_holds_model(first, earlier);
        lemma_shape(first, earlier);
        lemma_shape(first, history);
        let before = reached(first, earlier).run;
        let run = reached(first, history).run;
        if run.phase is Web {
            let catalog = run.catalog;
            assert(catalog_fetched(history) == Some(catalog));
            if let EventView::ModelIdMade(Ok(id)) = history.last() {
                lemma_lookup(catalog, id);
                let model = crate::models::lookup(catalog, id)->Some_0;
                let i = choose|i: int| 0 <= i < catalog.len() && catalog[i] == model;
                assert(has_id(catalog, i, run.model));
            } else {
                assert(has_id(catalog, 0, run.model));
            }
            assert(run.model == model_id(run.requested, history));
            assert(catalog_fetched(history)->Some_0 == catalog);
            assert(is_offered(history, run.model));
        } else if !(before.phase is Catalog) {
            assert(catalog_fetched(history) == catalog_fetched(earlier));
            assert(is_offered(history, before.model) == is_offered(earlier, before.model));
        }
    }
}

proof fn lemma_holds_files(first: StepView, history: Seq<EventView>)
    requires
        is_start(first),
        proper(first, history),
    ensures
        holds_files(reached(first, history).run, history),
        saves_what_was_found(reached(first, history), history),
    decreases history.len(),
{
    if history.len() > 0 {
        lemma_holds_files(first, history.drop_last());
        lemma_shape(first, history.drop_last());
        lemma_shape(first, history);
    }
}

/// What was asked for is what the run's phase and the host's answers say.
proof fn lemma_asked(first: StepView, history: Seq<EventView>)
    requires
        is_start(first),
        proper(first, history),
    ensures
        !(reached(first, history).run.phase is Finished) ==> asked(first, history) == so_far(
            reached(first, history).run,
            history,
        ).push(reached(first, history).action),
    decreases history.len(),
{
    if history.len() == 0 {
        assert(asked(first, history) =~= Seq::<ActionView>::empty().push(first.action));
    } else {
        let earlier = history.drop_last();
        lemma_asked(first, earlier);
        lemma_shape(first, earlier);
        lemma_shape(first, history);
        lemma_holds_texts(first, earlier);
        lemma_holds_texts(first, history);
        lemma_holds_model(first, earlier);
        lemma_holds_model(first, history);
        lemma_holds_files(first, earlier);
        lemma_holds_files(first, history);
        let before = reached(first, earlier);
        let step = reached(first, history);
        if !(step.run.phase is Finished) {
            match before.run.phase {
                Phase::Client | Phase::Prompt | Phase::ArgsFile | Phase::Inputs => {
                    lemma_read_next(before, step, earlier, history);
                },
                Phase::Seed(_) | Phase::Release => {
                    lemma_seed_next(before, step, earlier, history);
                },
                Phase::Execute | Phase::Extract(_) => {
                    lemma_copy_next(before, step, earlier, history);
                },
                _ => {
                    lemma_prepare_next(before, step, earlier, history);
                },
            }
        }
    }
}

/// Whether `step` follows `before` with one more answer, and neither is the end.
spec fn one_step(
    before: StepView,
    step: StepView,
    earlier: Seq<EventView>,
    history: Seq<EventView>,
) -> bool {
    &&& history.len() > 0
    &&& earlier == history.drop_last()
    &&& before.run.consistent()
    &&& before.run.args.input.len() <= usize::MAX
    &&& before.run.args.output.len() <= usize::MAX
    &&& answers(before.run.phase, history.last())
    &&& step == before.run.after(history.last())
    &&& fits(before.run, before.action)
    &&& !(step.run.phase is Finished)
    &&& holds_texts(before.run, earlier)
    &&& holds_texts(step.run, history)
    &&& holds_model(before.run, earlier)
    &&& holds_model(step.run, history)
    &&& holds_files(before.run, earlier)
    &&& holds_files(step.run, history)
    &&& saves_what_was_found(before, earlier)
}

/// While the files are read, one more action is asked for at a time.
proof fn lemma_read_next(
    before: StepView,
    step: StepView,
    earlier: Seq<EventView>,
    history: Seq<EventView>,
)
    requires
        one_step(before, step, earlier, history),
        match before.run.phase {
            Phase::Client | Phase::Prompt | Phase::ArgsFile | Phase::Inputs => true,
            _ => false,
        },
    ensures
        so_far(step.run, history) == so_far(before.run, earlier).push(before.action),
{
    let run = step.run;
    let args = run.args;
    let old_far = so_far(before.run, earlier);
    let far = so_far(run, history);
    assert(far =~= old_far.push(before.action));
}

/// While the run is prepared, one more action is asked for at a time.
proof fn lemma_prepare_next(
    before: StepView,
    step: StepView,
    earlier: Seq<EventView>,
    history: Seq<EventView>,
)
    requires
        one_step(before, step, earlier, history),
        match before.run.phase {
            Phase::Parse | Phase::Catalog | Phase::ModelId => true,
            Phase::Web | Phase::Register | Phase::Prepare => true,
            _ => false,
        },
    ensures
        so_far(step.run, history) == so_far(before.run, earlier).push(before.action),
{
    let run = step.run;
    let args = run.args;
    let old_far = so_far(before.run, earlier);
    let far = so_far(run, history);
    let read = readings(args, args.input.len());
    let old_prepare = preparations(args, run.requested, run.run_id, before.run.model);
    let prepare = preparations(args, run.requested, run.run_id, run.model);
    let n = prepare.len() as int;
    assert(old_prepare.take(n - 3) =~= prepare.take(n - 3));
    if before.run.phase is Prepare {
        assert(read + prepare =~= old_far.push(before.action));
        assert(far =~= read + prepare);
    } else if run.phase is Web {
        assert(prepare.take(n - 3) =~= prepare.take(n - 4).push(before.action));
        assert(far =~= old_far.push(before.action));
    } else {
        assert(far =~= old_far.push(before.action));
    }
}

/// While the store is seeded, one more action is asked for at a time.
proof fn lemma_seed_next(
    before: StepView,
    step: StepView,
    earlier: Seq<EventView>,
    history: Seq<EventView>,
)
    requires
        one_step(before, step, earlier, history),
        match before.run.phase {
            Phase::Seed(_) | Phase::Release => true,
            _ => false,
        },
    ensures
        so_far(step.run, history) == so_far(before.run, earlier).push(before.action),
{
    let run = step.run;
    let args = run.args;
    let old_far = so_far(before.run, earlier);
    let far = so_far(run, history);
    let seed = seeds(args.input, run.contents, args.input.len());
    match before.run.phase {
        Phase::Seed(SeedPhase::Acquire) => {
            assert(seed.take(1) =~= seq![before.action]);
            assert(far =~= old_far.push(before.action));
        },
        Phase::Seed(SeedPhase::Probe) => {
            assert(seed.take(2) =~= seed.take(1).push(before.action));
            assert(far =~= old_far.push(before.action));
        },
        Phase::Seed(SeedPhase::Write(i)) => {
            assert(seed[2 + i as int] == before.action);
            assert(seed.take(3 + i) =~= seed.take(2 + i).push(before.action));
            assert(run.phase is Release ==> seed.take(3 + i) =~= seed);
            assert(far =~= old_far.push(before.action));
        },
        _ => {
            assert(far =~= old_far.push(before.action));
        },
    }
}

/// From the execution on, one more action is asked for at a time.
proof fn lemma_copy_next(
    before: StepView,
    step: StepView,
    earlier: Seq<EventView>,
    history: Seq<EventView>,
)
    requires
        one_step(before, step, earlier, history),
        match before.run.phase {
            Phase::Execute | Phase::Extract(_) => true,
            _ => false,
        },
    ensures
        so_far(step.run, history) == so_far(before.run, earlier).push(before.action),
{
    let run = step.run;
    let args = run.args;
    let old_far = so_far(before.run, earlier);
    let far = so_far(run, history);
    let old_before = before_execution(args, run.requested, run.run_id, earlier);
    assert(before_execution(args, run.requested, run.run_id, history) == old_before);
    let executed = old_before.push(ActionView::Execute { input: run.input });
    let old_files = files_found(earlier);
    let files = files_found(history);
    match before.run.phase {
        Phase::Extract(ExtractPhase::Acquire) => {
            assert(copies(args.output, files, 0) =~= seq![before.action]);
            assert(far =~= old_far.push(before.action));
        },
        Phase::Extract(ExtractPhase::Read(i)) => {
            assert(copies(args.output, files, 2 * i as nat + 1) =~= copies(
                args.output,
                old_files,
                2 * i as nat,
            ).push(before.action));
            assert(far =~= old_far.push(before.action));
        },
        Phase::Extract(ExtractPhase::Save(i)) => {
            assert(copies(args.output, files, 2 * (i + 1) as nat) =~= copies(
                args.output,
                old_files,
                2 * i as nat + 1,
            ).push(before.action));
            assert(far =~= old_far.push(before.action));
        },
        _ => {
            assert(far =~= executed);
        },
    }
}

/// As long as nothing goes wrong, a run asks for what is on the agenda, all of it
/// and in this order; and where it ends without an error, nothing of it was left
/// out.
pub proof fn law_run_follows_the_agenda(first: StepView, history: Seq<EventView>)
    requires
        is_start(first),
        proper(first, history),
        !(reached(first, history).action matches ActionView::Finish(result) && result is Err),
    ensures
        ({
            let whole = agenda(
                first.run.args,
                first.run.requested,
                first.run.run_id,
                history,
            );
            &&& asked(first, history).is_prefix_of(whole)
            &&& reached(first, history).action is Finish ==> asked(first, history) == whole
        }),
{
    let step = reached(first, history);
    let run = step.run;
    lemma_shape(first, history);
    lemma_holds_texts(first, history);
    lemma_holds_model(first, history);
    lemma_holds_files(first, history);
    lemma_asked(first, history);
    if run.phase is Finished {
        let earlier = history.drop_last();
        lemma_shape(first, earlier);
        lemma_holds_texts(first, earlier);
        lemma_holds_model(first, earlier);
        lemma_holds_files(first, earlier);
        lemma_asked(first, earlier);
        lemma_agenda_is_done(reached(first, earlier), step, earlier, history);
    } else {
        match run.phase {
            Phase::Client | Phase::Prompt | Phase::ArgsFile | Phase::Inputs => {
                lemma_reading_is_due(step, history);
            },
            Phase::Seed(_) | Phase::Release => {
                lemma_seeding_is_due(step, history);
            },
            Phase::Execute | Phase::Extract(_) => {
                lemma_copying_is_due(step, history);
            },
            _ => {
                lemma_preparing_is_due(step, history);
            },
        }
    }
}

/// Whether the step has an action to come, and what it holds is what the host
/// answered.
spec fn in_order(step: StepView, history: Seq<EventView>) -> bool {
    &&& step.run.consistent()
    &&& fits(step.run, step.action)
    &&& !(step.run.phase is Finished)
    &&& holds_texts(step.run, history)
    &&& holds_model(step.run, history)
    &&& holds_files(step.run, history)
    &&& saves_what_was_found(step, history)
}

/// The agenda of the run.
spec fn whole(run: RunView, history: Seq<EventView>) -> Seq<ActionView> {
    agenda(run.args, run.requested, run.run_id, history)
}

/// The start of a part, behind all that comes before it, is a start of the whole.
proof fn lemma_start_of_part(
    before: Seq<ActionView>,
    part: Seq<ActionView>,
    at: int,
    rest: Seq<ActionView>,
)
    requires
        0 <= at <= part.len(),
    ensures
        (before + part.take(at)).is_prefix_of(before + part + rest),
{
    let start = before + part.take(at);
    assert(start =~= (before + part + rest).take(start.len() as int));
}

/// The files are read as the agenda says.
proof fn lemma_reading_is_due(step: StepView, history: Seq<EventView>)
    requires
        in_order(step, history),
        match step.run.phase {
            Phase::Client | Phase::Prompt | Phase::ArgsFile | Phase::Inputs => true,
            _ => false,
        },
    ensures
        so_far(step.run, history).push(step.action).is_prefix_of(whole(step.run, history)),
{
    let run = step.run;
    let args = run.args;
    let done = so_far(run, history).push(step.action);
    let read = readings(args, args.input.len());
    let all = whole(run, history);
    let rest = all.skip(read.len() as int);
    assert(all =~= Seq::empty() + read + rest);
    assert(done =~= Seq::empty() + read.take(done.len() as int));
    lemma_start_of_part(Seq::empty(), read, done.len() as int, rest);
}

/// The run is prepared as the agenda says.
proof fn lemma_preparing_is_due(step: StepView, history: Seq<EventView>)
    requires
        in_order(step, history),
        match step.run.phase {
            Phase::Parse | Phase::Catalog | Phase::ModelId => true,
            Phase::Web | Phase::Register | Phase::Prepare => true,
            _ => false,
        },
    ensures
        so_far(step.run, history).push(step.action).is_prefix_of(whole(step.run, history)),
{
    let run = step.run;
    let args = run.args;
    let done = so_far(run, history).push(step.action);
    let read = readings(args, args.input.len());
    let model = model_id(run.requested, history);
    let prepare = preparations(args, run.requested, run.run_id, model);
    let own = preparations(args, run.requested, run.run_id, run.model);
    let n = prepare.len() as int;
    let all = whole(run, history);
    let rest = all.skip((read.len() + n) as int);
    assert(all =~= read + prepare + rest);
    assert(own.take(n - 1) =~= prepare.take(n - 1));
    let at = done.len() - read.len();
    assert(prepare.take(at) =~= own.take(at - 1).push(step.action));
    assert(done =~= read + prepare.take(at));
    lemma_start_of_part(read, prepare, at, rest);
}

/// The store is seeded as the agenda says.
proof fn lemma_seeding_is_due(step: StepView, history: Seq<EventView>)
    requires
        in_order(step, history),
        match step.run.phase {
            Phase::Seed(_) | Phase::Release => true,
            _ => false,
        },
    ensures
        so_far(step.run, history).push(step.action).is_prefix_of(whole(step.run, history)),
{
    let run = step.run;
    let args = run.args;
    let done = so_far(run, history).push(step.action);
    let read = readings(args, args.input.len());
    let prepare = preparations(args, run.requested, run.run_id, run.model);
    let seed = seeds(args.input, run.contents, args.input.len()).push(ActionView::Release);
    let all = whole(run, history);
    let rest = all.skip((read.len() + prepare.len() + seed.len()) as int);
    assert(all =~= read + prepare + seed + rest);
    let at = done.len() - read.len() - prepare.len();
    assert(seed.take(at) =~= seed.take(at - 1).push(step.action));
    assert(done =~= read + prepare + seed.take(at));
    lemma_start_of_part(read + prepare, seed, at, rest);
}

/// The prompt is executed and its outputs are copied as the agenda says.
proof fn lemma_copying_is_due(step: StepView, history: Seq<EventView>)
    requires
        in_order(step, history),
        match step.run.phase {
            Phase::Execute | Phase::Extract(_) => true,
            _ => false,
        },
    ensures
        so_far(step.run, history).push(step.action).is_prefix_of(whole(step.run, history)),
{
    let run = step.run;
    let args = run.args;
    let done = so_far(run, history).push(step.action);
    let read = readings(args, args.input.len());
    let before = before_execution(args, run.requested, run.run_id, history);
    let executed = before.push(ActionView::Execute { input: run.input });
    let after = after_execution(args, history);
    let none = Seq::<ActionView>::empty();
    assert(whole(run, history) =~= executed + after + none);
    let at = done.len() - executed.len();
    match run.phase {
        Phase::Extract(ExtractPhase::Read(i)) => {
            assert(after.take(at) =~= copies(args.output, files_found(history), 2 * i as nat).push(
                step.action,
            ));
        },
        Phase::Extract(ExtractPhase::Save(i)) => {
            assert(after.take(at) =~= copies(
                args.output,
                files_found(history),
                2 * i as nat + 1,
            ).push(step.action));
        },
        Phase::Extract(ExtractPhase::Acquire) => {
            assert(after.take(at) =~= seq![step.action]);
        },
        _ => {
            assert(after.take(at) =~= none);
        },
    }
    assert(done =~= executed + after.take(at));
    lemma_start_of_part(executed, after, at, none);
}

/// Where the run ends without an error, the agenda is done.
proof fn lemma_agenda_is_done(
    before: StepView,
    step: StepView,
    earlier: Seq<EventView>,
    history: Seq<EventView>,
)
    requires
        history.len() > 0,
        earlier == history.drop_last(),
        before.run.consistent(),
        before.run.args.output.len() <= usize::MAX,
        answers(before.run.phase, history.last()),
        step == before.run.after(history.last()),
        fits(before.run, before.action),
        step.action matches ActionView::Finish(result) && result is Ok,
        holds_texts(before.run, earlier),
        holds_model(before.run, earlier),
        holds_files(before.run, earlier),
        saves_what_was_found(before, earlier),
    ensures
        before.run.phase is Execute || before.run.phase is Extract,
        execution(history) == Some(step.action->Finish_0->Ok_0),
        so_far(before.run, earlier).push(before.action).push(step.action) == agenda(
            before.run.args,
            before.run.requested,
            before.run.run_id,
            history,
        ),
{
    let run = before.run;
    let args = run.args;
    let whole = agenda(args, run.requested, run.run_id, history);
    let done = so_far(run, earlier).push(before.action).push(step.action);
    let head = before_execution(args, run.requested, run.run_id, history);
    assert(head == before_execution(args, run.requested, run.run_id, earlier));
    let executed = head.push(ActionView::Execute { input: prompt_args(args, history) });
    match run.phase {
        Phase::Execute => {
            assert(done =~= whole);
        },
        Phase::Extract(ExtractPhase::Save(i)) => {
            let files = files_found(history);
            assert(files == files_found(earlier));
            assert(copies(args.output, files, 2 * args.output.len()) =~= copies(
                args.output,
                files,
                2 * i as nat + 1,
            ).push(before.action));
            assert(done =~= executed + copies(args.output, files, 2 * args.output.len()).push(
                step.action,
            ));
            assert(done =~= whole);
        },
        _ => {},
    }
}

/// The execution whose outputs are being copied was asked for and gave the text.
proof fn lemma_was_executed(first: StepView, history: Seq<EventView>)
    requires
        is_start(first),
        proper(first, history),
    ensures
        ({
            let step = reached(first, history);
            &&& step.run.phase is Extract ==> exchanged(
                first,
                history,
                ActionView::Execute { input: prompt_args(first.run.args, history) },
                EventView::Executed(ResultView::Completed(step.run.text)),
            )
            &&& step.action matches ActionView::Finish(Ok(result)) ==> exchanged(
                first,
                history,
                ActionView::Execute { input: prompt_args(first.run.args, history) },
                EventView::Executed(result),
            )
        }),
    decreases history.len(),
{
    if history.len() > 0 {
        let earlier = history.drop_last();
        lemma_was_executed(first, earlier);
        lemma_shape(first, earlier);
        lemma_shape(first, history);
        lemma_holds_texts(first, earlier);
        let before = reached(first, earlier);
        if before.run.phase is Execute || before.run.phase is Extract {
            assert(prompt_args(first.run.args, history) == prompt_args(first.run.args, earlier));
        }
    }
}

/// A run ends without an error only where the prompt was executed, with the `args`
/// that were selected for it, and it ends as that execution did: with the same
/// text, the same failure or the same interruption.
pub proof fn law_run_ends_as_the_execution_did(
    first: StepView,
    history: Seq<EventView>,
    result: ResultView,
)
    requires
        is_start(first),
        proper(first, history),
        reached(first, history).action == ActionView::Finish(Ok(result)),
    ensures
        exchanged(
            first,
            history,
            ActionView::Execute { input: prompt_args(first.run.args, history) },
            EventView::Executed(result),
        ),
{
    lemma_was_executed(first, history);
}

/// What the host answered can be found in the exchanges.
proof fn lemma_exchanges(first: StepView, history: Seq<EventView>)
    requires
        is_start(first),
        proper(first, history),
    ensures
        catalog_fetched(history) matches Some(catalog) ==> exchanged(
            first,
            history,
            ActionView::FetchCatalog,
            EventView::CatalogFetched(Ok(catalog)),
        ),
        id_made(history) matches Some(id) ==> first.run.requested is Some && exchanged(
            first,
            history,
            ActionView::MakeModelId { name: first.run.requested->Some_0 },
            EventView::ModelIdMade(Ok(id)),
        ),
    decreases history.len(),
{
    if history.len() > 0 {
        lemma_exchanges(first, history.drop_last());
        lemma_shape(first, history.drop_last());
    }
}

/// The environment is prepared for the model that was selected. Where none was
/// requested, that is the first of the catalog that the gateway gave; else it is
/// the one whose id was made of the requested name, and the catalog has it.
pub proof fn law_prompt_runs_with_the_selected_model(
    first: StepView,
    history: Seq<EventView>,
    model: Seq<char>,
)
    requires
        is_start(first),
        proper(first, history),
        reached(first, history).action == (ActionView::Prepare { model }),
    ensures
        ({
            &&& catalog_fetched(history) matches Some(catalog)
            &&& exchanged(
                first,
                history,
                ActionView::FetchCatalog,
                EventView::CatalogFetched(Ok(catalog)),
            )
            &&& exists|i: int| #[trigger] has_id(catalog, i, model)
            &&& first.run.requested is None ==> model == catalog[0].id
            &&& first.run.requested matches Some(name) ==> exchanged(
                first,
                history,
                ActionView::MakeModelId { name },
                EventView::ModelIdMade(Ok(model)),
            )
        }),
{
    lemma_shape(first, history);
    lemma_holds_model(first, history);
    lemma_exchanges(first, history);
}

/// Whether the last answer is one with which a run cannot go on: something went
/// wrong, the file is no prompt, there is no such model, the prompt's needs are
/// not met, or it did not write an output.
pub open spec fn cannot_go_on(requested: Option<Seq<char>>, history: Seq<EventView>) -> bool {
    match history.last() {
        EventView::Done(reply) => reply is Err,
        EventView::PromptRead(reply) => reply != Ok::<_, ErrorView>(true),
        EventView::TextRead(reply) => reply is Err,
        EventView::CatalogFetched(Ok(catalog)) => requested is None && catalog.len() == 0,
        EventView::CatalogFetched(Err(_)) => true,
        EventView::ModelIdMade(Ok(id)) => !is_offered(history, id),
        EventView::ModelIdMade(Err(_)) => true,
        EventView::Prepared(requirements) => !requirements.satisfied,
        EventView::Released => false,
        EventView::Executed(_) => false,
        EventView::StoreRead(Ok(file)) => !file.written,
        EventView::StoreRead(Err(_)) => true,
    }
}

/// A run ends with an error as soon as it cannot go on, and only then.
pub proof fn law_error_where_the_run_cannot_go_on(first: StepView, history: Seq<EventView>)
    requires
        is_start(first),
        proper(first, history),
        history.len() > 0,
    ensures
        (reached(first, history).action matches ActionView::Finish(result) && result is Err)
            <==> cannot_go_on(first.run.requested, history),
{
    let earlier = history.drop_last();
    lemma_shape(first, earlier);
    lemma_holds_model(first, earlier);
    let run = reached(first, earlier).run;
    if let EventView::ModelIdMade(Ok(id)) = history.last() {
        assert(catalog_fetched(history) == catalog_fetched(earlier));
        let catalog = run.catalog;
        lemma_lookup(catalog, id);
        if crate::models::lookup(catalog, id) is Some {
            let model = crate::models::lookup(catalog, id)->Some_0;
            let i = choose|i: int| 0 <= i < catalog.len() && catalog[i] == model;
            assert(has_id(catalog, i, id));
        }
        if exists|i: int| #[trigger] has_id(catalog, i, id) {
            let i = choose|i: int| #[trigger] has_id(catalog, i, id);
            assert(crate::models::ids(catalog)[i] == id);
            assert(crate::models::ids(catalog).contains(id));
        }
        assert(catalog_fetched(history)->Some_0 == catalog);
        assert(is_offered(history, id) == (crate::models::lookup(catalog, id) is Some));
    }
}

/// What the host was doing, as the operator is told where it fails.
pub open spec fn doing(
    args: ArgsView,
    url: Seq<char>,
    action: ActionView,
    history: Seq<EventView>,
) -> Seq<char> {
    match action {
        ActionView::BuildClient => "build the gateway client"@,
        ActionView::ReadPrompt => "read prompt file "@ + args.file,
        ActionView::ReadArgs => "read args file "@ + args.args_file->Some_0,
        ActionView::ReadInput { path } => "read --input "@ + args.input[input_texts(
            args,
            history,
        ).len() as int].name + " from "@ + path,
        ActionView::ParsePrompt { .. } => "parse prompt file "@ + args.file,
        ActionView::FetchCatalog => "fetch the model catalog from "@ + url,
        ActionView::MakeModelId { name } => "model id `"@ + name + "`"@,
        ActionView::BuildWeb => "build the promptforge/web capability"@,
        ActionView::RegisterWeb => "register the promptforge/web capability"@,
        ActionView::Store(StoreActionView::Acquire { origin }) => if origin
            == "promptforge-cli --input"@ {
            "acquire the run's store for seeding"@
        } else {
            "acquire the run's store for extraction"@
        },
        ActionView::Store(StoreActionView::Probe { path }) => "the run's store is not mounted at "@
            + path + "; the engine's store mount moved"@,
        ActionView::Store(StoreActionView::Write { path, .. }) => "seed the store file "@
            + path.skip("/_promptforge/store/"@.len() as int) + " for --input"@,
        ActionView::Store(StoreActionView::Read { path }) => "read the store file "@ + path.skip(
            "/_promptforge/store/"@.len() as int,
        ) + " for --output"@,
        ActionView::Store(StoreActionView::Save { path, .. }) => "write --output "@
            + args.output[files_found(history).len() - 1].name + " to "@ + path,
        _ => Seq::empty(),
    }
}

/// The error that the host reported, if that is what it did. A store file that is
/// not there is no error of the host.
pub open spec fn reported(event: EventView) -> Option<ErrorView> {
    match event {
        EventView::Done(Err(error)) => Some(error),
        EventView::PromptRead(Err(error)) => Some(error),
        EventView::TextRead(Err(error)) => Some(error),
        EventView::CatalogFetched(Err(error)) => Some(error),
        EventView::ModelIdMade(Err(error)) => Some(error),
        EventView::StoreRead(Err(StoreErrorView::Other(error))) => Some(error),
        _ => None,
    }
}

/// Where the host fails, the operator is told what it was doing, with which file
/// or which name, and then all that the host reported.
pub proof fn law_failures_of_the_host_are_told(first: StepView, history: Seq<EventView>)
    requires
        is_start(first),
        proper(first, history),
        history.len() > 0,
        reported(history.last()) is Some,
    ensures
        ({
            let error = reported(history.last())->Some_0;
            let asked_for = reached(first, history.drop_last()).action;
            reached(first, history).action == ActionView::Finish(
                Err(
                    ErrorView {
                        message: doing(
                            first.run.args,
                            first.run.gateway.url,
                            asked_for,
                            history.drop_last(),
                        ),
                        causes: seq![error.message] + error.causes,
                    },
                ),
            )
        }),
{
    let earlier = history.drop_last();
    lemma_shape(first, earlier);
    lemma_holds_texts(first, earlier);
    lemma_holds_files(first, earlier);
    let before = reached(first, earlier);
    let mount = "/_promptforge/store/"@;
    reveal_strlit("promptforge-cli --input");
    reveal_strlit("promptforge-cli --output");
    assert("promptforge-cli --input"@.len() != "promptforge-cli --output"@.len());
    match before.action {
        ActionView::Store(StoreActionView::Write { path, .. }) => {
            let i = before.run.phase->Seed_0->Write_0;
            let name = first.run.args.input[i as int].name;
            law_location(name);
            assert((mount + name).skip(mount.len() as int) =~= name);
        },
        ActionView::Store(StoreActionView::Read { path }) => {
            let i = before.run.phase->Extract_0->Read_0;
            let name = first.run.args.output[i as int].name;
            law_location(name);
            assert((mount + name).skip(mount.len() as int) =~= name);
        },
        _ => {},
    }
}

/// Where the run cannot go on for another reason, the operator is told which: that
/// the file is no prompt, which models there are, what the prompt needs, or which
/// output it did not write.
pub proof fn law_other_errors_are_told(first: StepView, history: Seq<EventView>)
    requires
        is_start(first),
        proper(first, history),
        history.len() > 0,
        cannot_go_on(first.run.requested, history),
        reported(history.last()) is None,
    ensures
        ({
            let args = first.run.args;
            &&& reached(first, history).action matches ActionView::Finish(Err(error))
            &&& error.causes.len() == 0
            &&& match history.last() {
                EventView::PromptRead(_) => error.message == args.file
                    + " is not a promptforge prompt: its frontmatter declares no `promptforge:` version"@,
                EventView::CatalogFetched(_) => error.message
                    == "the gateway catalog lists no models"@,
                EventView::ModelIdMade(_) => {
                    &&& catalog_fetched(history) matches Some(catalog)
                    &&& error.message == "model `"@ + first.run.requested->Some_0
                        + "` is not in the gateway catalog; available: "@ + join(
                        Seq::new(catalog.len(), |i: int| catalog[i].name),
                        ", "@,
                    )
                },
                EventView::Prepared(requirements) => error.message == refusal(requirements),
                EventView::StoreRead(_) => {
                    let name = args.output[files_found(history.drop_last()).len() as int].name;
                    error.message == "--output "@ + name + ": the run left no store file named "@
                        + quoted(name) + "; the prompt must `store.write("@ + quoted(name)
                        + ", ...)` before it returns"@
                },
                _ => false,
            }
        }),
{
    let earlier = history.drop_last();
    lemma_shape(first, earlier);
    lemma_holds_model(first, earlier);
    lemma_holds_files(first, earlier);
    law_error_where_the_run_cannot_go_on(first, history);
    let run = reached(first, earlier).run;
    if let EventView::ModelIdMade(Ok(id)) = history.last() {
        assert(catalog_fetched(history) == catalog_fetched(earlier));
        assert(Seq::new(run.catalog.len(), |i: int| run.catalog[i].name) =~= crate::models::names(
            run.catalog,
        ));
    }
}

/// Whether the line is about the model of this index, the first of its id.
pub open spec fn is_about(line: Seq<char>, catalog: Seq<ModelView>, i: int, id: Seq<char>) -> bool {
    &&& has_id(catalog, i, id)
    &&& forall|j: int| 0 <= j < i ==> !#[trigger] has_id(catalog, j, id)
    &&& line == model_line(catalog[i])
}

/// With `--verbose`, the configuration in use is printed once the prompt is
/// parsed, and the model that the prompt runs with once it is selected. Nothing
/// else is printed on the way, and without `--verbose` nothing at all.
pub proof fn law_what_is_printed_on_the_way(first: StepView, history: Seq<EventView>)
    requires
        is_start(first),
        proper(first, history),
    ensures
        ({
            let args = first.run.args;
            let step = reached(first, history);
            if args.verbose && step.action is FetchCatalog {
                step.report == configuration(
                    first.run.gateway,
                    args,
                    prompt_args(args, history),
                    quoted(prompt_args(args, history)),
                    input_texts(args, history),
                    first.run.run_id,
                )
            } else if args.verbose && step.action is BuildWeb {
                &&& step.report.len() == 1
                &&& catalog_fetched(history) matches Some(catalog)
                &&& exists|i: int| #[trigger]
                    is_about(
                        step.report[0],
                        catalog,
                        i,
                        model_id(first.run.requested, history),
                    )
            } else {
                step.report.len() == 0
            }
        }),
{
    lemma_shape(first, history);
    lemma_holds_texts(first, history);
    lemma_holds_model(first, history);
    if history.len() > 0 {
        let earlier = history.drop_last();
        lemma_shape(first, earlier);
        lemma_holds_texts(first, earlier);
        lemma_holds_model(first, earlier);
        let step = reached(first, history);
        if first.run.args.verbose && step.action is BuildWeb {
            let catalog = step.run.catalog;
            let line = step.report[0];
            if let EventView::ModelIdMade(Ok(id)) = history.last() {
                assert(catalog_fetched(history)->Some_0 == catalog);
                let i = lemma_lookup_is_first(catalog, id);
                assert(is_about(line, catalog, i, id));
            } else {
                assert(catalog_fetched(history)->Some_0 == catalog);
                assert(is_about(line, catalog, 0, catalog[0].id));
            }
        }
    }
}

/// The model that is looked up is the first with its id.
proof fn lemma_lookup_is_first(catalog: Seq<ModelView>, id: Seq<char>) -> (i: int)
    requires
        crate::models::lookup(catalog, id) is Some,
    ensures
        has_id(catalog, i, id),
        forall|j: int| 0 <= j < i ==> !#[trigger] has_id(catalog, j, id),
        crate::models::lookup(catalog, id) == Some(catalog[i]),
    decreases catalog.len(),
{
    if catalog[0].id == id {
        0
    } else {
        let rest = catalog.drop_first();
        let i = lemma_lookup_is_first(rest, id);
        assert forall|j: int| 0 <= j < i + 1 implies !#[trigger] has_id(catalog, j, id) by {
            if j > 0 {
                assert(!has_id(rest, j - 1, id));
            }
        }
        i + 1
    }
}

/// A run starts where both the URL and the key are set, with the arguments, the
/// run id and the model that it was given; else the message says what is missing.
pub proof fn law_start(
    args: ArgsView,
    url: VariableView,
    key: VariableView,
    model: VariableView,
    run_id: Seq<char>,
)
    ensures
        started(args, url, key, model, run_id) is Ok <==> is_set(url) && is_set(key),
        started(args, url, key, model, run_id) matches Ok(step) ==> {
            &&& step.run.args == args
            &&& step.run.run_id == run_id
            &&& configured_gateway(url, key) == Ok::<_, Seq<char>>(step.run.gateway)
            &&& is_set(model) ==> {
                &&& step.run.requested matches Some(name)
                &&& is_tight(name)
                &&& surrounds(model->Present_0, name)
            }
            &&& !is_set(model) ==> step.run.requested is None
            &&& step.report.len() == 0
            &&& step.action is BuildClient
        },
        started(args, url, key, model, run_id) matches Err(error) ==> {
            &&& configured_gateway(url, key) == Err::<GatewayView, _>(error.message)
            &&& error.causes.len() == 0
        },
{
    law_gateway_needs_both(url, key);
    if let VariableView::Present(text) = model {
        law_optional_value(text);
    }
}

/// What a run was started with stays as it was.
pub proof fn law_settings_are_kept(first: StepView, history: Seq<EventView>)
    requires
        is_start(first),
        proper(first, history),
    ensures
        reached(first, history).run.args == first.run.args,
        reached(first, history).run.gateway == first.run.gateway,
        reached(first, history).run.requested == first.run.requested,
        reached(first, history).run.run_id == first.run.run_id,
{
    lemma_shape(first, history);
}

/// Whatever the host answers to what it was asked for, the run takes it: a success
/// of the kind asked for as well as any failure.
pub proof fn law_every_answer_is_taken(first: StepView, history: Seq<EventView>)
    requires
        is_start(first),
        proper(first, history),
    ensures
        ({
            let phase = reached(first, history).run.phase;
            match reached(first, history).action {
                ActionView::ReadPrompt => forall|reply: Result<bool, ErrorView>| #[trigger]
                    answers(phase, EventView::PromptRead(reply)),
                ActionView::ReadArgs | ActionView::ReadInput { .. } => forall|
                    reply: Result<Seq<char>, ErrorView>,
                | #[trigger] answers(phase, EventView::TextRead(reply)),
                ActionView::FetchCatalog => forall|reply: Result<Seq<ModelView>, ErrorView>|
                    #[trigger] answers(phase, EventView::CatalogFetched(reply)),
                ActionView::MakeModelId { .. } => forall|reply: Result<Seq<char>, ErrorView>|
                    #[trigger] answers(phase, EventView::ModelIdMade(reply)),
                ActionView::Prepare { .. } => forall|requirements: RequirementsView| #[trigger]
                    answers(phase, EventView::Prepared(requirements)),
                ActionView::Release => answers(phase, EventView::Released),
                ActionView::Execute { .. } => forall|result: ResultView| #[trigger]
                    answers(phase, EventView::Executed(result)),
                ActionView::Store(StoreActionView::Read { .. }) => forall|
                    reply: Result<StoreFileView, StoreErrorView>,
                | #[trigger] answers(phase, EventView::StoreRead(reply)),
                ActionView::Finish(_) => phase is Finished,
                _ => forall|reply: Result<(), ErrorView>| #[trigger]
                    answers(phase, EventView::Done(reply)),
            }
        }),
{
    lemma_shape(first, history);
}

} // verus!
