//! What tells one run from another: its id, and the configuration it prints.

use vstd::prelude::*;
use vstd::string::*;

use crate::args::{InputSource, RunArgs};
#[allow(unused_imports)]
use crate::args::{ArgsView, SourceView};
#[allow(unused_imports)]
use crate::mapping::MappingView;
use crate::models::ModelDescriptor;
#[allow(unused_imports)]
use crate::models::ModelView;
use crate::settings::Gateway;
#[allow(unused_imports)]
use crate::settings::GatewayView;
use crate::text::{decimal_text, hexadecimal_text};
#[allow(unused_imports)]
use crate::text::{byte_len, decimal, hexadecimal, law_decimal, law_hexadecimal, texts};

verus! {

/// A random number.
///
/// Calls `fastrand::u64` on the full range. Nothing is claimed of the number:
/// it is left to chance.
#[verifier::external_body]
fn random_number() -> u64 {
    fastrand::u64(..)
}

/// The id of the run with this number.
pub open spec fn run_id_text(number: u64) -> Seq<char> {
    "cli-"@ + hexadecimal(number as nat, 16)
}

/// The id of the run with this number.
pub fn run_id(number: u64) -> (id: String)
    ensures
        id@ == run_id_text(number),
{
    "cli-".to_owned().concat(hexadecimal_text(number, 16).as_str())
}

/// The id of a new run.
pub fn fresh_run_id() -> (id: String)
    ensures
        exists|number: u64| id@ == #[trigger] run_id_text(number),
{
    run_id(random_number())
}

/// Different numbers make different ids.
pub proof fn law_run_ids_are_distinct(a: u64, b: u64)
    requires
        run_id_text(a) == run_id_text(b),
    ensures
        a == b,
{
    let n = "cli-"@.len() as int;
    assert(run_id_text(a).skip(n) =~= hexadecimal(a as nat, 16));
    assert(run_id_text(b).skip(n) =~= hexadecimal(b as nat, 16));
    assert(vstd::arithmetic::power::pow(16, 16) == 0x1_0000_0000_0000_0000) by {
        reveal_with_fuel(vstd::arithmetic::power::pow, 17);
    }
    crate::text::lemma_hexadecimal_injective(a as nat, b as nat, 16);
}

/// The line about the prompt's input. `quoted_input` is the input in quotes.
pub open spec fn args_line(
    source: SourceView,
    input: Seq<char>,
    quoted_input: Seq<char>,
) -> Seq<char> {
    match source {
        SourceView::File(path) => "args:    "@ + decimal(byte_len(input) as nat) + " bytes from "@
            + path,
        _ => "args:    "@ + quoted_input,
    }
}

/// The line about a file that seeds the store.
pub open spec fn input_line(input: MappingView, contents: Seq<char>) -> Seq<char> {
    "input:   "@ + input.name + " <- "@ + input.path + " ("@ + decimal(byte_len(contents) as nat)
        + " bytes)"@
}

/// The line about a store file that is copied out.
pub open spec fn output_line(output: MappingView) -> Seq<char> {
    "output:  "@ + output.name + " -> "@ + output.path
}

/// The line about the model.
pub open spec fn model_line(model: ModelView) -> Seq<char> {
    "model:   "@ + model.name + " (context "@ + decimal(model.context as nat) + ")"@
}

/// The configuration in use, one line per setting. Of the key only the length
/// is shown.
pub open spec fn configuration(
    gateway: GatewayView,
    args: ArgsView,
    input: Seq<char>,
    quoted_input: Seq<char>,
    contents: Seq<Seq<char>>,
    run_id: Seq<char>,
) -> Seq<Seq<char>> {
    seq![
        "gateway: "@ + gateway.url,
        "api key: "@ + decimal(byte_len(gateway.key) as nat) + " characters"@,
        "prompt:  "@ + args.file,
        args_line(args.source(), input, quoted_input),
    ] + Seq::new(args.input.len(), |i: int| input_line(args.input[i], contents[i])) + Seq::new(
        args.output.len(),
        |i: int| output_line(args.output[i]),
    ) + seq!["run id:  "@ + run_id]
}

/// Lists the configuration in use. `quoted_input` is the input in quotes.
pub fn configuration_report(
    gateway: &Gateway,
    args: &RunArgs,
    input: &str,
    quoted_input: &str,
    contents: &Vec<String>,
    run_id: &str,
) -> (lines: Vec<String>)
    requires
        contents@.len() == args.input@.len(),
    ensures
        texts(lines@) == configuration(
            gateway@,
            args@,
            input@,
            quoted_input@,
            texts(contents@),
            run_id@,
        ),
{
    let ghost all = configuration(
        gateway@,
        args@,
        input@,
        quoted_input@,
        texts(contents@),
        run_id@,
    );
    let mut lines: Vec<String> = Vec::new();
    lines.push("gateway: ".to_owned().concat(gateway.url.as_str()));
    lines.push(
        "api key: ".to_owned().concat(
            decimal_text(gateway.key.as_str().len() as u64).as_str(),
        ).concat(" characters"),
    );
    lines.push("prompt:  ".to_owned().concat(args.file.as_str()));
    lines.push(
        match args.input_source() {
            InputSource::File(path) => "args:    ".to_owned().concat(
                decimal_text(input.len() as u64).as_str(),
            ).concat(" bytes from ").concat(path),
            _ => "args:    ".to_owned().concat(quoted_input),
        },
    );
    let mut next: usize = 0;
    while next < args.input.len()
        invariant
            all == configuration(
                gateway@,
                args@,
                input@,
                quoted_input@,
                texts(contents@),
                run_id@,
            ),
            contents@.len() == args.input@.len(),
            next <= args.input@.len(),
            lines@.len() == 4 + next,
            forall|i: int| 0 <= i < lines@.len() ==> (#[trigger] lines@[i])@ == all[i],
        decreases args.input@.len() - next,
    {
        let mapping = &args.input[next];
        lines.push(
            "input:   ".to_owned().concat(mapping.name.as_str()).concat(" <- ").concat(
                mapping.path.as_str(),
            ).concat(" (").concat(
                decimal_text(contents[next].as_str().len() as u64).as_str(),
            ).concat(" bytes)"),
        );
        next += 1;
    }
    next = 0;
    while next < args.output.len()
        invariant
            all == configuration(
                gateway@,
                args@,
                input@,
                quoted_input@,
                texts(contents@),
                run_id@,
            ),
            contents@.len() == args.input@.len(),
            next <= args.output@.len(),
            lines@.len() == 4 + args.input@.len() + next,
            forall|i: int| 0 <= i < lines@.len() ==> (#[trigger] lines@[i])@ == all[i],
        decreases args.output@.len() - next,
    {
        let mapping = &args.output[next];
        lines.push(
            "output:  ".to_owned().concat(mapping.name.as_str()).concat(" -> ").concat(
                mapping.path.as_str(),
            ),
        );
        next += 1;
    }
    lines.push("run id:  ".to_owned().concat(run_id));
    proof {
        assert(texts(lines@) =~= all);
    }
    lines
}

/// Says which model the run uses.
pub fn model_report(model: &ModelDescriptor) -> (line: String)
    ensures
        line@ == model_line(model@),
{
    "model:   ".to_owned().concat(model.name.as_str()).concat(" (context ").concat(
        decimal_text(model.context as u64).as_str(),
    ).concat(")")
}

/// A run id is `cli-` and sixteen lower-case digits that stand for the number.
pub proof fn law_run_id_shows_the_number(number: u64)
    ensures
        ({
            let id = run_id_text(number);
            &&& id.len() == 20
            &&& id.take(4) == "cli-"@
            &&& forall|i: int|
                4 <= i < 20 ==> ('0' <= #[trigger] id[i] <= '9' || 'a' <= id[i] <= 'f')
            &&& crate::text::number(id.skip(4), 16) == number
        }),
{
    let id = run_id_text(number);
    let digits = hexadecimal(number as nat, 16);
    law_hexadecimal(number as nat, 16);
    reveal_strlit("cli-");
    assert(id.take(4) =~= "cli-"@);
    assert(id.skip(4) =~= digits);
    assert(vstd::arithmetic::power::pow(16, 16) == 0x1_0000_0000_0000_0000) by {
        reveal_with_fuel(vstd::arithmetic::power::pow, 17);
    }
    assert forall|i: int| 4 <= i < 20 implies ('0' <= #[trigger] id[i] <= '9' || 'a' <= id[i]
        <= 'f') by {
        assert(id[i] == digits[i - 4]);
    }
}

/// Whether `text` is `count` in decimal digits, with no zero in front of others.
pub open spec fn tells(text: Seq<char>, count: int) -> bool {
    &&& text.len() > 0
    &&& forall|i: int| 0 <= i < text.len() ==> '0' <= #[trigger] text[i] <= '9'
    &&& text.len() > 1 ==> text[0] != '0'
    &&& crate::text::number(text, 10) == count
}

/// Whether `line` tells `count` between `before` and `after`.
pub open spec fn tells_between(
    line: Seq<char>,
    before: Seq<char>,
    count: int,
    after: Seq<char>,
) -> bool {
    exists|digits: Seq<char>|
        #![trigger tells(digits, count)]
        tells(digits, count) && line == before + digits + after
}

/// The configuration has a line of its own for the gateway, the key, the prompt,
/// its input, each file that goes in, each file that comes out and the run id, in
/// this order. Of the key and of the files it tells the size in bytes.
pub proof fn law_configuration(
    gateway: GatewayView,
    args: ArgsView,
    input: Seq<char>,
    quoted_input: Seq<char>,
    contents: Seq<Seq<char>>,
    run_id: Seq<char>,
)
    requires
        contents.len() == args.input.len(),
        vstd::utf8::encode_utf8(gateway.key).len() <= usize::MAX,
        vstd::utf8::encode_utf8(input).len() <= usize::MAX,
        forall|i: int|
            0 <= i < contents.len() ==> vstd::utf8::encode_utf8(#[trigger] contents[i]).len()
                <= usize::MAX,
    ensures
        ({
            let lines = configuration(gateway, args, input, quoted_input, contents, run_id);
            let ins = args.input.len() as int;
            let outs = args.output.len() as int;
            &&& lines.len() == 5 + ins + outs
            &&& lines[0] == "gateway: "@ + gateway.url
            &&& tells_between(
                lines[1],
                "api key: "@,
                vstd::utf8::encode_utf8(gateway.key).len() as int,
                " characters"@,
            )
            &&& lines[2] == "prompt:  "@ + args.file
            &&& args.args is None && args.args_file is Some ==> tells_between(
                lines[3],
                "args:    "@,
                vstd::utf8::encode_utf8(input).len() as int,
                " bytes from "@ + args.args_file->Some_0,
            )
            &&& args.args is Some || args.args_file is None ==> lines[3] == "args:    "@
                + quoted_input
            &&& forall|i: int| #![trigger args.input[i]]
                0 <= i < ins ==> tells_between(
                    lines[4 + i],
                    "input:   "@ + args.input[i].name + " <- "@ + args.input[i].path + " ("@,
                    vstd::utf8::encode_utf8(contents[i]).len() as int,
                    " bytes)"@,
                )
            &&& forall|i: int| #![trigger args.output[i]]
                0 <= i < outs ==> lines[4 + ins + i] == "output:  "@ + args.output[i].name
                    + " -> "@ + args.output[i].path
            &&& lines[4 + ins + outs] == "run id:  "@ + run_id
        }),
{
    let lines = configuration(gateway, args, input, quoted_input, contents, run_id);
    let ins = args.input.len() as int;
    let outs = args.output.len() as int;
    let key = byte_len(gateway.key) as nat;
    law_decimal(key);
    assert(tells(decimal(key), key as int));
    assert(lines[1] == "api key: "@ + decimal(key) + " characters"@);
    let size = byte_len(input) as nat;
    law_decimal(size);
    assert(tells(decimal(size), size as int));
    if args.args is None && args.args_file is Some {
        assert("args:    "@ + decimal(size) + " bytes from "@ + args.args_file->Some_0
            =~= "args:    "@ + decimal(size) + (" bytes from "@ + args.args_file->Some_0));
    }
    assert forall|i: int| #![trigger args.input[i]] 0 <= i < ins implies tells_between(
        lines[4 + i],
        "input:   "@ + args.input[i].name + " <- "@ + args.input[i].path + " ("@,
        vstd::utf8::encode_utf8(contents[i]).len() as int,
        " bytes)"@,
    ) by {
        let bytes = byte_len(contents[i]) as nat;
        law_decimal(bytes);
        assert(tells(decimal(bytes), bytes as int));
        assert(lines[4 + i] == input_line(args.input[i], contents[i]));
    }
}

/// The line about the model shows its name and tells its context.
pub proof fn law_model_line(model: ModelView)
    ensures
        tells_between(
            model_line(model),
            "model:   "@ + model.name + " (context "@,
            model.context as int,
            ")"@,
        ),
{
    law_decimal(model.context as nat);
    assert(tells(decimal(model.context as nat), model.context as int));
}

} // verus!
