//! What holds of every run, whatever the host answers.
//!
//! A history is the list of the events with which the host answered, one for
//! each action that it was asked for.

pub mod agenda;

use vstd::prelude::*;

#[allow(unused_imports)]
use crate::args::{ArgsView, SourceView};
#[allow(unused_imports)]
use crate::mapping::{law_locations_are_distinct, store_location, MappingView, STORE_MOUNT};
#[allow(unused_imports)]
use crate::models::{selected, RequestView};
#[allow(unused_imports)]
use crate::report::{exit_status, plain_error, ErrorView, ResultView, EXIT_FAILURE};
#[allow(unused_imports)]
use crate::run::{answers, started, ActionView, EventView, Phase, RunView, StepView};
#[allow(unused_imports)]
use crate::settings::{GatewayView, VariableView};
#[allow(unused_imports)]
use crate::store::{
    extract_read, missing_output, seed_write, ExtractPhase, SeedPhase, StoreActionView,
    StoreErrorView, StoreFileView, EXTRACT_ORIGIN, SEED_ORIGIN,
};
#[allow(unused_imports)]
use crate::text::{byte_len, quoted};

verus! {

/// The step that a run has come to with this history.
pub open spec fn reached(first: StepView, history: Seq<EventView>) -> StepView
    decreases history.len(),
{
    if history.len() == 0 {
        first
    } else {
        reached(first, history.drop_last()).run.after(history.last())
    }
}

/// Whether each event of the history answers what the host was asked for.
pub open spec fn proper(first: StepView, history: Seq<EventView>) -> bool
    decreases history.len(),
{
    history.len() == 0 || {
        &&& proper(first, history.drop_last())
        &&& answers(reached(first, history.drop_last()).run.phase, history.last())
    }
}

/// Whether the host was once asked for `action` and answered with `event`.
pub open spec fn exchanged(
    first: StepView,
    history: Seq<EventView>,
    action: ActionView,
    event: EventView,
) -> bool
    decreases history.len(),
{
    history.len() > 0 && {
        ||| exchanged(first, history.drop_last(), action, event)
        ||| reached(first, history.drop_last()).action == action && history.last() == event
    }
}

/// The first step of a run, with lists of files that fit in memory.
pub open spec fn is_start(first: StepView) -> bool {
    &&& first.run.args.input.len() <= usize::MAX
    &&& first.run.args.output.len() <= usize::MAX
    &&& exists|
        args: ArgsView,
        url: VariableView,
        key: VariableView,
        model: VariableView,
        run_id: Seq<char>,
    |
        #[trigger] started(args, url, key, model, run_id) == Ok::<StepView, ErrorView>(first)
}

/// Whether the run's settings are those it was started with.
pub open spec fn same_settings(a: RunView, b: RunView) -> bool {
    &&& a.args == b.args
    &&& a.gateway == b.gateway
    &&& a.requested == b.requested
    &&& a.run_id == b.run_id
}

/// Whether `action` is what the host is asked for in the run's phase.
pub open spec fn fits(run: RunView, action: ActionView) -> bool {
    match run.phase {
        Phase::Client => action is BuildClient,
        Phase::Prompt => action is ReadPrompt,
        Phase::ArgsFile => action is ReadArgs,
        Phase::Inputs => action == ActionView::ReadInput {
            path: run.args.input[run.contents.len() as int].path,
        },
        Phase::Parse => action == ActionView::ParsePrompt {
            run_id: run.run_id,
            observed: run.args.verbose,
        },
        Phase::Catalog => action is FetchCatalog,
        Phase::ModelId => run.requested matches Some(name) && action == ActionView::MakeModelId {
            name,
        },
        Phase::Web => action is BuildWeb,
        Phase::Register => action is RegisterWeb,
        Phase::Prepare => action == ActionView::Prepare { model: run.model },
        Phase::Seed(SeedPhase::Acquire) => action == ActionView::Store(
            StoreActionView::Acquire { origin: SEED_ORIGIN@ },
        ),
        Phase::Seed(SeedPhase::Probe) => action == ActionView::Store(
            StoreActionView::Probe { path: STORE_MOUNT@ },
        ),
        Phase::Seed(SeedPhase::Write(i)) => action == ActionView::Store(
            seed_write(run.args.input[i as int], run.contents[i as int]),
        ),
        Phase::Release => action is Release,
        Phase::Execute => action == ActionView::Execute { input: run.input },
        Phase::Extract(ExtractPhase::Acquire) => action == ActionView::Store(
            StoreActionView::Acquire { origin: EXTRACT_ORIGIN@ },
        ),
        Phase::Extract(ExtractPhase::Read(i)) => action == ActionView::Store(
            extract_read(run.args.output[i as int]),
        ),
        Phase::Extract(ExtractPhase::Save(i)) => {
            &&& action matches ActionView::Store(StoreActionView::Save { path, bytes })
            &&& path == run.args.output[i as int].path
        },
        Phase::Finished => action is Finish,
    }
}

/// A run keeps its settings, stays consistent, and asks for what its phase
/// calls for.
pub(crate) proof fn lemma_shape(first: StepView, history: Seq<EventView>)
    requires
        is_start(first),
        proper(first, history),
    ensures
        same_settings(reached(first, history).run, first.run),
        reached(first, history).run.consistent(),
        fits(reached(first, history).run, reached(first, history).action),
    decreases history.len(),
{
    if history.len() > 0 {
        lemma_shape(first, history.drop_last());
    }
}

/// Whether the run's input is where the flags say: on the command line, in what
/// was read from the args file, or nowhere.
pub open spec fn input_is_selected(
    first: StepView,
    history: Seq<EventView>,
    input: Seq<char>,
) -> bool {
    match first.run.args.source() {
        SourceView::Text(text) => input == text,
        SourceView::File(_) => exchanged(
            first,
            history,
            ActionView::ReadArgs,
            EventView::TextRead(Ok(input)),
        ),
        SourceView::Empty => input.len() == 0,
    }
}

/// Whether `text` was read from the host file of the input of index `k`.
pub open spec fn input_was_read(
    first: StepView,
    history: Seq<EventView>,
    k: int,
    text: Seq<char>,
) -> bool {
    exchanged(
        first,
        history,
        ActionView::ReadInput { path: first.run.args.input[k].path },
        EventView::TextRead(Ok(text)),
    )
}

/// Whether the prompt file was read and declares a version.
pub open spec fn prompt_was_read(first: StepView, history: Seq<EventView>) -> bool {
    exchanged(first, history, ActionView::ReadPrompt, EventView::PromptRead(Ok(true)))
}

/// What has been read is what the host answered.
proof fn lemma_reads(first: StepView, history: Seq<EventView>)
    requires
        is_start(first),
        proper(first, history),
    ensures
        ({
            let run = reached(first, history).run;
            &&& forall|k: int|
                0 <= k < run.contents.len() ==> #[trigger] input_was_read(
                    first,
                    history,
                    k,
                    run.contents[k],
                )
            &&& match run.phase {
                Phase::Client | Phase::Prompt | Phase::Finished => true,
                Phase::ArgsFile => prompt_was_read(first, history),
                _ => prompt_was_read(first, history) && input_is_selected(
                    first,
                    history,
                    run.input,
                ),
            }
        }),
    decreases history.len(),
{
    if history.len() > 0 {
        let earlier = history.drop_last();
        lemma_reads(first, earlier);
        lemma_shape(first, earlier);
        let before = reached(first, earlier).run;
        let run = reached(first, history).run;
        assert forall|k: int| 0 <= k < run.contents.len() implies #[trigger] input_was_read(
            first,
            history,
            k,
            run.contents[k],
        ) by {
            if k < before.contents.len() {
                assert(input_was_read(first, earlier, k, before.contents[k]));
                assert(run.contents[k] == before.contents[k]);
            }
        }
    }
}

/// What the host has put into the store.
pub open spec fn written(first: StepView, history: Seq<EventView>) -> Map<Seq<char>, Seq<char>>
    decreases history.len(),
{
    if history.len() == 0 {
        Map::empty()
    } else {
        let before = written(first, history.drop_last());
        match (reached(first, history.drop_last()).action, history.last()) {
            (
                ActionView::Store(StoreActionView::Write { path, contents }),
                EventView::Done(Ok(_)),
            ) => before.insert(path, contents),
            _ => before,
        }
    }
}

/// A store into which the first `count` inputs have been copied, each under its
/// name and in their order.
pub open spec fn seeded_store(
    inputs: Seq<MappingView>,
    contents: Seq<Seq<char>>,
    count: nat,
) -> Map<Seq<char>, Seq<char>>
    decreases count,
{
    if count == 0 {
        Map::empty()
    } else {
        seeded_store(inputs, contents, (count - 1) as nat).insert(
            store_location(inputs[count - 1].name),
            contents[count - 1],
        )
    }
}

/// Whether the prompt's needs were found to be met.
pub open spec fn was_satisfied(first: StepView, history: Seq<EventView>) -> bool {
    exists|model: Seq<char>, requirements: crate::requirements::RequirementsView|
        requirements.satisfied && #[trigger] exchanged(
            first,
            history,
            ActionView::Prepare { model },
            EventView::Prepared(requirements),
        )
}

/// The store fills up with the inputs in their order, after the prompt's needs
/// were found to be met.
proof fn lemma_writes(first: StepView, history: Seq<EventView>)
    requires
        is_start(first),
        proper(first, history),
    ensures
        ({
            let run = reached(first, history).run;
            let store = written(first, history);
            match run.phase {
                Phase::Seed(SeedPhase::Write(i)) => {
                    &&& store == seeded_store(run.args.input, run.contents, i as nat)
                    &&& was_satisfied(first, history)
                },
                Phase::Seed(_) => {
                    &&& store == Map::<Seq<char>, Seq<char>>::empty()
                    &&& was_satisfied(first, history)
                },
                Phase::Release | Phase::Execute | Phase::Extract(_) => {
                    &&& store == seeded_store(run.args.input, run.contents, run.args.input.len())
                    &&& was_satisfied(first, history)
                },
                Phase::Finished => true,
                _ => store == Map::<Seq<char>, Seq<char>>::empty(),
            }
        }),
    decreases history.len(),
{
    if history.len() > 0 {
        let earlier = history.drop_last();
        lemma_writes(first, earlier);
        lemma_shape(first, earlier);
        let before = reached(first, earlier);
        if was_satisfied(first, earlier) {
            let (model, requirements) = choose|
                model: Seq<char>,
                requirements: crate::requirements::RequirementsView,
            |
                requirements.satisfied && #[trigger] exchanged(
                    first,
                    earlier,
                    ActionView::Prepare { model },
                    EventView::Prepared(requirements),
                );
            assert(exchanged(
                first,
                history,
                ActionView::Prepare { model },
                EventView::Prepared(requirements),
            ));
        }
        if before.run.phase is Prepare {
            let model = before.action->Prepare_model;
            let requirements = history.last()->Prepared_0;
            assert(exchanged(
                first,
                history,
                ActionView::Prepare { model },
                EventView::Prepared(requirements),
            ));
        }
    }
}

/// Whether the prompt was executed and gave this text.
pub open spec fn completed(first: StepView, history: Seq<EventView>, text: Seq<char>) -> bool {
    exists|input: Seq<char>| #[trigger]
        exchanged(
            first,
            history,
            ActionView::Execute { input },
            EventView::Executed(ResultView::Completed(text)),
        )
}

/// Whether these bytes were read from the store file of `output`, and the prompt
/// wrote them there.
pub open spec fn output_was_read(
    first: StepView,
    history: Seq<EventView>,
    output: MappingView,
    bytes: Seq<u8>,
) -> bool {
    exchanged(
        first,
        history,
        ActionView::Store(extract_read(output)),
        EventView::StoreRead(Ok(StoreFileView { bytes, written: true })),
    )
}

/// Whether what the prompt wrote to the store file of `output` is at its host
/// path.
pub open spec fn delivered(
    first: StepView,
    history: Seq<EventView>,
    output: MappingView,
) -> bool {
    exists|bytes: Seq<u8>|
        #![trigger output_was_read(first, history, output, bytes)]
        output_was_read(first, history, output, bytes) && exchanged(
            first,
            history,
            ActionView::Store(StoreActionView::Save { path: output.path, bytes }),
            EventView::Done(Ok(())),
        )
}

/// What was delivered stays delivered.
proof fn lemma_delivered_stays(first: StepView, history: Seq<EventView>, output: MappingView)
    requires
        history.len() > 0,
        delivered(first, history.drop_last(), output),
    ensures
        delivered(first, history, output),
{
    let earlier = history.drop_last();
    let bytes = choose|bytes: Seq<u8>|
        #![trigger output_was_read(first, earlier, output, bytes)]
        output_was_read(first, earlier, output, bytes) && exchanged(
            first,
            earlier,
            ActionView::Store(StoreActionView::Save { path: output.path, bytes }),
            EventView::Done(Ok(())),
        );
    assert(output_was_read(first, history, output, bytes));
}

/// How far the deliveries of a run have come at `step`.
spec fn deliveries(first: StepView, history: Seq<EventView>, step: StepView) -> bool {
    let run = step.run;
    let outputs = run.args.output;
    match run.phase {
        Phase::Extract(phase) => {
            &&& completed(first, history, run.text)
            &&& match phase {
                ExtractPhase::Acquire => true,
                ExtractPhase::Read(i) => forall|k: int|
                    0 <= k < i ==> #[trigger] delivered(first, history, outputs[k]),
                ExtractPhase::Save(i) => {
                    &&& forall|k: int|
                        0 <= k < i ==> #[trigger] delivered(first, history, outputs[k])
                    &&& output_was_read(
                        first,
                        history,
                        outputs[i as int],
                        step.action->Store_0->Save_bytes,
                    )
                },
            }
        },
        Phase::Finished => step.action matches ActionView::Finish(
            Ok(ResultView::Completed(text)),
        ) ==> {
            &&& completed(first, history, text)
            &&& forall|k: int|
                0 <= k < outputs.len() ==> #[trigger] delivered(first, history, outputs[k])
        },
        _ => true,
    }
}

/// Outputs are delivered in their order, after the prompt gave its text.
proof fn lemma_deliveries(first: StepView, history: Seq<EventView>)
    requires
        is_start(first),
        proper(first, history),
    ensures
        deliveries(first, history, reached(first, history)),
    decreases history.len(),
{
    if history.len() > 0 {
        let earlier = history.drop_last();
        lemma_deliveries(first, earlier);
        lemma_shape(first, earlier);
        lemma_shape(first, history);
        let before = reached(first, earlier);
        let outputs = before.run.args.output;
        assert forall|k: int| delivered(first, earlier, outputs[k]) implies #[trigger] delivered(
            first,
            history,
            outputs[k],
        ) by {
            lemma_delivered_stays(first, history, outputs[k]);
        }
        match before.run.phase {
            Phase::Execute => {
                if let EventView::Executed(ResultView::Completed(text)) = history.last() {
                    assert(exchanged(
                        first,
                        history,
                        ActionView::Execute { input: before.run.input },
                        EventView::Executed(ResultView::Completed(text)),
                    ));
                    assert(completed(first, history, text));
                }
            },
            Phase::Extract(phase) => {
                let text = before.run.text;
                let input = choose|input: Seq<char>| #[trigger]
                    exchanged(
                        first,
                        earlier,
                        ActionView::Execute { input },
                        EventView::Executed(ResultView::Completed(text)),
                    );
                assert(exchanged(
                    first,
                    history,
                    ActionView::Execute { input },
                    EventView::Executed(ResultView::Completed(text)),
                ));
                assert(completed(first, history, text));
                match phase {
                    ExtractPhase::Acquire => {},
                    ExtractPhase::Read(i) => {
                        assert forall|k: int| 0 <= k < i implies #[trigger] delivered(
                            first,
                            history,
                            outputs[k],
                        ) by {
                            assert(delivered(first, earlier, outputs[k]));
                        }
                    },
                    ExtractPhase::Save(i) => {
                        let bytes = before.action->Store_0->Save_bytes;
                        assert(output_was_read(first, earlier, outputs[i as int], bytes));
                        assert forall|k: int| 0 <= k < i implies #[trigger] delivered(
                            first,
                            history,
                            outputs[k],
                        ) by {
                            assert(delivered(first, earlier, outputs[k]));
                        }
                        if let EventView::Done(Ok(unit)) = history.last() {
                            assert(unit == ());
                            assert(output_was_read(first, history, outputs[i as int], bytes));
                            assert(exchanged(
                                first,
                                history,
                                ActionView::Store(
                                    StoreActionView::Save { path: outputs[i as int].path, bytes },
                                ),
                                EventView::Done(Ok(())),
                            ));
                            assert(delivered(first, history, outputs[i as int]));
                        }
                    },
                }
            },
            _ => {},
        }
    }
}

/// In a seeded store each input is found under its name, unless a later one has
/// the same name; and nothing else is in it.
proof fn lemma_seeded_store(inputs: Seq<MappingView>, contents: Seq<Seq<char>>, count: nat)
    requires
        count <= inputs.len(),
    ensures
        forall|k: int|
            0 <= k < count && (forall|later: int|
                k < later < count ==> inputs[later].name != inputs[k].name) ==> {
                &&& seeded_store(inputs, contents, count).contains_key(
                    #[trigger] store_location(inputs[k].name),
                )
                &&& seeded_store(inputs, contents, count)[store_location(inputs[k].name)]
                    == contents[k]
            },
        forall|path: Seq<char>| #[trigger]
            seeded_store(inputs, contents, count).contains_key(path) ==> exists|k: int|
                0 <= k < count && path == #[trigger] store_location(inputs[k].name),
    decreases count,
{
    if count > 0 {
        let fewer = (count - 1) as nat;
        let last = inputs[fewer as int].name;
        lemma_seeded_store(inputs, contents, fewer);
        assert forall|k: int|
            0 <= k < count && (forall|later: int|
                k < later < count ==> inputs[later].name != inputs[k].name) implies {
            &&& seeded_store(inputs, contents, count).contains_key(
                #[trigger] store_location(inputs[k].name),
            )
            &&& seeded_store(inputs, contents, count)[store_location(inputs[k].name)]
                == contents[k]
        } by {
            if k < fewer {
                assert(inputs[fewer as int].name != inputs[k].name);
                if store_location(inputs[k].name) == store_location(last) {
                    law_locations_are_distinct(inputs[k].name, last);
                }
            }
        }
        assert forall|path: Seq<char>| #[trigger]
            seeded_store(inputs, contents, count).contains_key(path) implies exists|k: int|
            0 <= k < count && path == #[trigger] store_location(inputs[k].name) by {
            if path == store_location(last) {
                assert(path == store_location(inputs[fewer as int].name));
            } else {
                assert(seeded_store(inputs, contents, fewer).contains_key(path));
            }
        }
    }
}

/// Every input file is read before the gateway is asked for anything, so a
/// missing one fails with no network round trip.
pub proof fn law_inputs_are_read_first(first: StepView, history: Seq<EventView>)
    requires
        is_start(first),
        proper(first, history),
        reached(first, history).action is FetchCatalog || reached(first, history).action is Execute,
    ensures
        reached(first, history).run.contents.len() == first.run.args.input.len(),
        forall|k: int|
            0 <= k < first.run.args.input.len() ==> #[trigger] input_was_read(
                first,
                history,
                k,
                reached(first, history).run.contents[k],
            ),
{
    lemma_shape(first, history);
    lemma_reads(first, history);
}

/// When the prompt is executed, its file declares a version, its needs are met,
/// its `args` are what the flags selected, and the store holds the input files:
/// under each name what the host file holds, the last one where two have the
/// same name, and nothing else.
pub proof fn law_prompt_finds_its_inputs(first: StepView, history: Seq<EventView>)
    requires
        is_start(first),
        proper(first, history),
        reached(first, history).action is Execute,
    ensures
        ({
            let inputs = first.run.args.input;
            let contents = reached(first, history).run.contents;
            let store = written(first, history);
            &&& prompt_was_read(first, history)
            &&& was_satisfied(first, history)
            &&& input_is_selected(
                first,
                history,
                reached(first, history).action->Execute_input,
            )
            &&& contents.len() == inputs.len()
            &&& forall|k: int|
                0 <= k < inputs.len() ==> #[trigger] input_was_read(first, history, k, contents[k])
            &&& forall|k: int|
                0 <= k < inputs.len() && (forall|later: int|
                    k < later < inputs.len() ==> inputs[later].name != inputs[k].name) ==> {
                    &&& store.contains_key(#[trigger] store_location(inputs[k].name))
                    &&& store[store_location(inputs[k].name)] == contents[k]
                }
            &&& forall|path: Seq<char>| #[trigger]
                store.contains_key(path) ==> exists|k: int|
                    0 <= k < inputs.len() && path == #[trigger] store_location(inputs[k].name)
        }),
{
    lemma_shape(first, history);
    lemma_reads(first, history);
    lemma_writes(first, history);
    let run = reached(first, history).run;
    lemma_seeded_store(run.args.input, run.contents, run.args.input.len());
}

/// The access that the seeding acquired is released right before the prompt is
/// executed, so that the run never meets it.
pub proof fn law_access_is_released_before_execution(first: StepView, history: Seq<EventView>)
    requires
        is_start(first),
        proper(first, history),
        reached(first, history).action is Execute,
        first.run.args.input.len() > 0,
    ensures
        history.len() > 0,
        reached(first, history.drop_last()).action is Release,
        history.last() is Released,
{
    lemma_shape(first, history);
    lemma_shape(first, history.drop_last());
}

/// Whether `action` takes something out of the store or is about to.
pub open spec fn extracts(action: ActionView) -> bool {
    match action {
        ActionView::Store(StoreActionView::Acquire { origin }) => origin == EXTRACT_ORIGIN@,
        ActionView::Store(StoreActionView::Read { .. }) => true,
        ActionView::Store(StoreActionView::Save { .. }) => true,
        _ => false,
    }
}

/// Nothing is extracted after a failed or cancelled run.
pub proof fn law_only_success_is_extracted(first: StepView, history: Seq<EventView>)
    requires
        is_start(first),
        proper(first, history),
        extracts(reached(first, history).action),
    ensures
        completed(first, history, reached(first, history).run.text),
{
    reveal_strlit("promptforge-cli --input");
    reveal_strlit("promptforge-cli --output");
    assert(SEED_ORIGIN@.len() != EXTRACT_ORIGIN@.len());
    lemma_shape(first, history);
    lemma_deliveries(first, history);
}

/// A run ends with the prompt's text only once the prompt has written every
/// output and what it wrote is at the output's host path.
pub proof fn law_success_delivers_every_output(
    first: StepView,
    history: Seq<EventView>,
    text: Seq<char>,
)
    requires
        is_start(first),
        proper(first, history),
        reached(first, history).action == ActionView::Finish(Ok(ResultView::Completed(text))),
    ensures
        completed(first, history, text),
        forall|k: int|
            0 <= k < first.run.args.output.len() ==> #[trigger] delivered(
                first,
                history,
                first.run.args.output[k],
            ),
{
    lemma_shape(first, history);
    lemma_deliveries(first, history);
}

/// A run of the prompt that did not give its text is what the command ends with.
pub proof fn law_unsuccessful_run_is_the_ending(run: RunView, result: ResultView)
    requires
        run.phase is Execute,
        !(result is Completed),
    ensures
        run.after(EventView::Executed(result)).action == ActionView::Finish(Ok(result)),
{
}

/// Whether the host reports that something went wrong.
pub open spec fn is_failure(event: EventView) -> bool {
    match event {
        EventView::Done(reply) => reply is Err,
        EventView::PromptRead(reply) => reply is Err,
        EventView::TextRead(reply) => reply is Err,
        EventView::CatalogFetched(reply) => reply is Err,
        EventView::ModelIdMade(reply) => reply is Err,
        EventView::StoreRead(reply) => reply is Err,
        _ => false,
    }
}

/// Whatever goes wrong ends the run at once, with an error and the status of a
/// failure.
pub proof fn law_failure_ends_the_run(run: RunView, event: EventView)
    requires
        run.consistent(),
        answers(run.phase, event),
        is_failure(event),
    ensures
        run.after(event).run.phase is Finished,
        run.after(event).action matches ActionView::Finish(result) && result is Err && exit_status(
            result,
        ) == EXIT_FAILURE,
{
}

/// A run ends with an error only where something went wrong, the file is no
/// prompt, there is no model to select, the prompt's needs are not met, or it did
/// not write an output.
pub proof fn law_nothing_else_is_an_error(run: RunView, event: EventView)
    requires
        run.consistent(),
        answers(run.phase, event),
        run.after(event).action matches ActionView::Finish(result) && result is Err,
    ensures
        ({
            ||| is_failure(event)
            ||| event == EventView::PromptRead(Ok(false))
            ||| event matches EventView::CatalogFetched(Ok(catalog)) && run.requested is None
                && selected(catalog, None) is Err
            ||| event matches EventView::ModelIdMade(Ok(id)) && selected(
                run.catalog,
                Some(RequestView { name: run.requested->Some_0, id }),
            ) is Err
            ||| event matches EventView::Prepared(requirements) && !requirements.satisfied
            ||| event matches EventView::StoreRead(Ok(file)) && !file.written
        }),
{
}

/// An output that the prompt never wrote is an error that names it, and nothing
/// is saved for it: neither where the store has no such file, nor where it has
/// one that the prompt did not write.
pub proof fn law_missing_output_is_named(
    run: RunView,
    i: usize,
    reply: Result<StoreFileView, StoreErrorView>,
)
    requires
        run.consistent(),
        run.phase == Phase::Extract(ExtractPhase::Read(i)),
        match reply {
            Ok(file) => !file.written,
            Err(error) => error is NotFound,
        },
    ensures
        ({
            let name = run.args.output[i as int].name;
            &&& run.after(EventView::StoreRead(reply)).action matches ActionView::Finish(Err(error))
            &&& error == plain_error(missing_output(name, quoted(name)))
            &&& ("--output "@ + name).is_prefix_of(error.message)
        }),
{
}

/// An upper bound on the number of answers that a run still needs.
pub open spec fn remaining(run: RunView) -> int {
    let inputs = run.args.input.len() as int;
    let outputs = run.args.output.len() as int;
    let copies = inputs + 2 * outputs;
    match run.phase {
        Phase::Finished => 0,
        Phase::Extract(ExtractPhase::Save(i)) => 2 * (outputs - i) - 1,
        Phase::Extract(ExtractPhase::Read(i)) => 2 * (outputs - i),
        Phase::Extract(ExtractPhase::Acquire) => 2 * outputs + 1,
        Phase::Execute => 2 * outputs + 2,
        Phase::Release => 2 * outputs + 3,
        Phase::Seed(SeedPhase::Write(i)) => copies - i + 3,
        Phase::Seed(SeedPhase::Probe) => copies + 4,
        Phase::Seed(SeedPhase::Acquire) => copies + 5,
        Phase::Prepare => copies + 6,
        Phase::Register => copies + 7,
        Phase::Web => copies + 8,
        Phase::ModelId => copies + 9,
        Phase::Catalog => copies + 10,
        Phase::Parse => copies + 11,
        Phase::Inputs => copies + 11 + (inputs - run.contents.len()),
        Phase::ArgsFile => copies + 12 + inputs,
        Phase::Prompt => copies + 13 + inputs,
        Phase::Client => copies + 14 + inputs,
    }
}

/// Every run ends: the host answers a bounded number of times.
pub proof fn law_every_run_ends(first: StepView, history: Seq<EventView>)
    requires
        is_start(first),
        proper(first, history),
    ensures
        0 <= remaining(reached(first, history).run),
        remaining(reached(first, history).run) == 0 <==> reached(
            first,
            history,
        ).run.phase is Finished,
        history.len() + remaining(reached(first, history).run) <= 14 + 2
            * first.run.args.input.len() + 2 * first.run.args.output.len(),
    decreases history.len(),
{
    lemma_shape(first, history);
    if history.len() > 0 {
        lemma_shape(first, history.drop_last());
        law_every_run_ends(first, history.drop_last());
    }
}

/// Without `--verbose` nothing is printed on the way.
pub proof fn law_quiet_unless_verbose(first: StepView, history: Seq<EventView>)
    requires
        is_start(first),
        proper(first, history),
        !first.run.args.verbose,
    ensures
        reached(first, history).report.len() == 0,
{
    if history.len() > 0 {
        lemma_shape(first, history.drop_last());
    }
}

/// The run with another key.
pub open spec fn with_key(run: RunView, key: Seq<char>) -> RunView {
    RunView { gateway: GatewayView { key, ..run.gateway }, ..run }
}

/// The key is never shown: whatever the host answers, a run with another key of
/// the same length prints the same lines, asks for the same things and ends in
/// the same way.
pub proof fn law_key_is_never_shown(
    first: StepView,
    second: StepView,
    history: Seq<EventView>,
)
    requires
        is_start(first),
        is_start(second),
        second.run == with_key(first.run, second.run.gateway.key),
        byte_len(first.run.gateway.key) == byte_len(second.run.gateway.key),
        proper(first, history),
    ensures
        proper(second, history),
        reached(second, history).report == reached(first, history).report,
        reached(second, history).action == reached(first, history).action,
        reached(second, history).run == with_key(
            reached(first, history).run,
            second.run.gateway.key,
        ),
    decreases history.len(),
{
    if history.len() > 0 {
        let earlier = history.drop_last();
        law_key_is_never_shown(first, second, earlier);
        lemma_shape(first, earlier);
        lemma_key_is_not_shown_next(
            reached(first, earlier).run,
            history.last(),
            second.run.gateway.key,
        );
    }
}

/// One step shows nothing of the key but its length.
proof fn lemma_key_is_not_shown_next(run: RunView, event: EventView, key: Seq<char>)
    requires
        run.consistent(),
        answers(run.phase, event),
        byte_len(run.gateway.key) == byte_len(key),
    ensures
        with_key(run, key).after(event) == (StepView {
            run: with_key(run.after(event).run, key),
            ..run.after(event)
        }),
{
    let other = with_key(run, key);
    if run.phase is Parse {
        assert(other.parsed().report =~= run.parsed().report);
    }
}

/// Whether two lists of mappings differ in the host paths at most.
pub open spec fn same_names(a: Seq<MappingView>, b: Seq<MappingView>) -> bool {
    &&& a.len() == b.len()
    &&& forall|i: int|
        #![trigger a[i]]
        #![trigger b[i]]
        0 <= i < a.len() ==> a[i].name == b[i].name
}

/// Whether two runs differ in host paths at most: those of the prompt file, of
/// the args file, of the inputs and of the outputs.
pub open spec fn same_but_paths(a: RunView, b: RunView) -> bool {
    &&& a.args.args == b.args.args
    &&& a.args.args_file is Some == b.args.args_file is Some
    &&& a.args.verbose == b.args.verbose
    &&& same_names(a.args.input, b.args.input)
    &&& same_names(a.args.output, b.args.output)
    &&& b == (RunView { args: b.args, ..a })
}

/// Whether two actions are the same but for the host path that one reads an
/// input from, saves an output to or names in an error.
pub open spec fn same_action_but_paths(a: ActionView, b: ActionView) -> bool {
    match (a, b) {
        (ActionView::ReadInput { .. }, ActionView::ReadInput { .. }) => true,
        (
            ActionView::Store(StoreActionView::Save { bytes, .. }),
            ActionView::Store(StoreActionView::Save { bytes: other, .. }),
        ) => bytes == other,
        (ActionView::Finish(Err(_)), ActionView::Finish(Err(_))) => true,
        _ => a == b,
    }
}

/// The prompt never sees a host path: whatever the host answers, a run whose
/// files lie elsewhere puts the same into the store, under the same names, and
/// the prompt is parsed, prepared and executed with the same values.
pub proof fn law_prompt_never_sees_a_host_path(
    first: StepView,
    second: StepView,
    history: Seq<EventView>,
)
    requires
        is_start(first),
        is_start(second),
        same_but_paths(first.run, second.run),
        proper(first, history),
    ensures
        proper(second, history),
        written(second, history) == written(first, history),
        same_but_paths(reached(first, history).run, reached(second, history).run),
        same_action_but_paths(reached(first, history).action, reached(second, history).action),
        ({
            let asked = reached(first, history).action;
            asked is ParsePrompt || asked is Prepare || asked is Execute ==> reached(
                second,
                history,
            ).action == asked
        }),
    decreases history.len(),
{
    if history.len() > 0 {
        let earlier = history.drop_last();
        law_prompt_never_sees_a_host_path(first, second, earlier);
        lemma_shape(first, earlier);
        lemma_shape(second, earlier);
        lemma_paths_are_not_seen_next(
            reached(first, earlier).run,
            reached(second, earlier).run,
            history.last(),
        );
    }
}

/// One step hands no host path to the prompt.
proof fn lemma_paths_are_not_seen_next(a: RunView, b: RunView, event: EventView)
    requires
        a.consistent(),
        b.consistent(),
        same_but_paths(a, b),
        answers(a.phase, event),
    ensures
        same_but_paths(a.after(event).run, b.after(event).run),
        same_action_but_paths(a.after(event).action, b.after(event).action),
{
}

} // verus!
