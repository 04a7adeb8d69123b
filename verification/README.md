# promptforge-cli

Run PromptForge prompts from a terminal:

```
promptforge run <file.md> [--args <text> | --args-file <path>] [--input <name>=<path>]... [--output <name>=<path>]... [--verbose]
```

`src/` is a library of the decisions that the command makes, verified with
Verus. `app/` is the command around it: the arguments, the environment, files,
the terminal, and the calls into the PromptForge engine.

| Module | What it holds |
| --- | --- |
| `text` | searching, splitting, trimming and rendering |
| `mapping` | the `NAME=PATH` pairs and the locations of store files |
| `args` | the arguments and the source of the prompt's input |
| `settings` | the environment's variables and the gateway |
| `models` | the choice of a model from the gateway's catalog, by its id |
| `requirements` | the notice that a prompt cannot run |
| `report` | errors, results, and what is printed at the end |
| `configuration` | run ids and the configuration that `--verbose` prints |
| `store` | the copies into the run's store and out of it |
| `run` | one run, as a machine that asks its host for what comes next |
| `laws` | what holds of every run, whatever the host answers |
| `terminal` | user input, observations and Ctrl-C |

An `--output` is copied where the prompt wrote its store file, also where the
prompt wrote back what an `--input` of the same name had put there. A store file
that the prompt left as it was seeded is a missing output: the command fails and
names it. `src/` takes from its host whether a file was written. `app/` has it
from the store: it notes the metadata that `stat` gives for a seeded file, and
the file's bytes, and a file for which either differs after the run counts as
written. So the operator sees the error for a file written back byte for byte
only where the store's metadata keeps no trace of a write; such a prompt has to
write its output under another name.

Three things are believed without proof: what `str::trim` leaves, that the
`Debug` text of a string depends on the string alone, and that `fastrand`
returns some number.

The engine's crates, `promptforge-api-runtime` and `shared-vfs`, come from the
PromptForge repository and are needed to build `app/`.
