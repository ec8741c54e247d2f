# Symphony

Symphony runs coding agents on the issues of a tracker. It polls the tracker, starts an agent in a
workspace of its own for each issue that may be worked on, follows its turns, and retries with a
growing delay what fails.

## Layout

- `src/` is the library: the rules of the program, with their contracts, proved by Verus.
- `app/` is the program around it: the command line, the clocks, files, processes and connections.
- `tests/` runs the library on concrete values.

The library never waits and never reads a clock. Where work alternates with decisions, a decision is
a function from what is known and what happened to what is known next: `Orchestrator` for messages,
`Tick` for the steps of a poll, `Worker` for the life of one worker, `AppServer` for the talk with an agent, `LocalWorkspace` for a
workspace on disk, `IssuePages` for paged queries, `RenderThrottle` and `Dashboard` for the panel,
`RollingLog` for the log file. The program performs the step and reports what came of it.

## Modules

| module | what it holds |
| --- | --- |
| `orchestrator` | state, dispatch order and slots, reconciliation, retries, messages |
| `agent_runner` | the phases of a worker and the settings of its agent |
| `codex` | events of the agent, requests to it, turns, tools |
| `workspace`, `workspace_flow`, `path` | where workspaces are, how they are made and removed |
| `ssh` | targets, quoting and arguments for remote hosts |
| `linear`, `tracker` | queries, answers and issues of the tracker |
| `workflow`, `config`, `prompt`, `template` | the workflow file, its configuration and its prompts |
| `dashboard`, `http` | the panel in the terminal, the page and the JSON replies |
| `logging`, `startup`, `error` | log files, start and stop, errors |
| `text`, `collections`, `json`, `yaml`, `sorting`, `time`, `domain` | the values that all of it is made of |

## What is taken on trust

A few functions hand a value to another crate or to the standard library and claim no more than that
the answer is a function of what was handed over: JSON and YAML texts, dates, Unicode lower case,
the debug form of strings, lossy UTF-8. Of a Liquid template they claim that the answer is one that
Liquid may give for the template and the issue, and an error where the template is not well-formed or
prints what nothing names; and they hand over no template on which Liquid might panic: `template`
tells those apart by their text. Each says so in its comment.
