//! What an agent can ask the program about itself.

use crate::json::{array, field, field_views, json_views, object, text_json, Json, JsonView};
use crate::metadata::SCHEMA_VERSION;
use vstd::prelude::*;

verus! {

/// The contract that an agent follows when it wraps commands.
pub const AGENT_GUIDE: &'static str = r#"# Agent Contract

`shadox` is an execution partner for agents. The agent remains the planner and calls `shadox` around commands that can change the workspace.

## Discovery

Read this guide and the command list from the program itself:

```bash
shadox agent-guide --format markdown
shadox capabilities --format json
```

## Default Pattern

Use `shadox run` for any command that can create, modify, delete, move, generate, or format workspace files:

```bash
shadox run \
  --profile workspace-write \
  --allow-write . \
  --versioned-workspace . \
  --rollback-on-failure \
  --summary .shadox/last-summary.json \
  --trace .shadox/last-trace.jsonl \
  -- cargo test
```

For trusted commands whose result should become the workspace baseline when they succeed, add `--commit-on-success`.

## Result Fields

After every wrapped command, read `summary.json`:

- `failure.kind`: command outcome such as `success`, `exit_non_zero`, `timeout`, `seccomp_denied`, or `landlock_denied`.
- `fs.checkpoint_before`: workspace checkpoint before the command.
- `fs.checkpoint_after`: workspace checkpoint after the command.
- `fs.changed_files`: number of changed file paths.
- `fs.changes`: structured path-level change list.
- `fs.journal_path`: JSONL redo stream for this run.
- `fs.committed`: whether `checkpoint_after` became workspace `HEAD`.
- `fs.rolled_back`: whether shadox restored `checkpoint_before`.

The agent should treat this block as the command transaction record. Do not infer recovery state from stdout text.

## Recovery Rules

When `--rollback-on-failure` is set and the command fails, shadox restores the live workspace to `checkpoint_before`. The agent can still inspect what happened:

```bash
shadox fs journal <run_id> --workspace .
shadox fs replay <run_id> ./replayed-view --workspace . --until-seq 3
shadox fs op-journal <run_id> --workspace .
shadox fs op-replay <run_id> ./operation-view --workspace . --until-seq 3
shadox fs op-replay <run_id> ./as-of-view --workspace . --until-ts 1790000000000
shadox fs op-restore <run_id> --workspace . --until-ts 1790000000000
shadox fs materialize <checkpoint_after> ./failed-result --workspace .
```

When rollback is not enabled, the agent can explicitly recover:

```bash
shadox fs rollback <checkpoint_before> --workspace .
```

When a successful result should be accepted as the new baseline:

```bash
shadox fs commit <checkpoint_after> --workspace .
```

Commit compacts that run's active redo logs into the compacted journal area. The agent should keep using `journal`, `replay`, `op-journal`, and `op-replay`; those commands resolve compacted journals automatically.

If the agent wants to make an explicit checkpoint from a run without using `commit`, use `shadox fs checkpoint . --source-run-id <run_id> --message "merge run"`; this also compacts the run's active redo logs.

## Inspection Rules

Use `status` before starting a risky operation if the workspace may already have uncommitted changes:

```bash
shadox fs status .
```

Use `verify` before relying on old checkpoints for recovery:

```bash
shadox fs verify .
```

Use `materialize` instead of rollback when the agent only needs to compare a historical state:

```bash
shadox fs materialize <checkpoint> ./historical-view --workspace .
```

## V1 Boundary

V1 journals command-boundary diffs. It can recover to `checkpoint_before`, `checkpoint_after`, or a replay prefix of the path-level journal. The V2 redo foundation can also replay operation-level journals with `op-replay`, including write offsets and content-addressed payload objects.

For write-level time travel, build with `--features fuse` and run commands through `shadox fs mount <backing> <mountpoint> --workspace <backing>`. The FUSE passthrough adapter feeds operation events into the same store, so the recovery workflow remains `op-journal` and `op-replay`.
"#;

/// The guide as text.
pub fn agent_guide_markdown() -> (text: String)
    ensures
        text@ == AGENT_GUIDE@,
{
    AGENT_GUIDE.to_string()
}

/// The guide with where it comes from.
pub open spec fn guide_form() -> JsonView {
    JsonView::Object(
        seq![
            ("content"@, JsonView::Text(AGENT_GUIDE@)),
            ("kind"@, JsonView::Text("shadox.agent_guide"@)),
            ("schema_version"@, JsonView::Number(SCHEMA_VERSION as int)),
            ("source"@, JsonView::Text("docs/agent-contract.md"@)),
        ],
    )
}

/// Gives the guide with where it comes from.
pub fn agent_guide_json() -> (j: Json)
    ensures
        j@ == guide_form(),
{
    let mut fields: Vec<(String, Json)> = Vec::new();
    assert(field_views(fields@) =~= Seq::empty());
    field(&mut fields, "content", text_json(AGENT_GUIDE));
    field(&mut fields, "kind", text_json("shadox.agent_guide"));
    field(&mut fields, "schema_version", Json::UInt(SCHEMA_VERSION as u128));
    field(&mut fields, "source", text_json("docs/agent-contract.md"));
    assert(field_views(fields@) =~= guide_form()->Object_0);
    object(fields)
}

/// One command with what it is for.
pub open spec fn command_form(name: Seq<char>, purpose: Seq<char>) -> JsonView {
    JsonView::Object(seq![("name"@, JsonView::Text(name)), ("purpose"@, JsonView::Text(purpose))])
}

/// Gives one command with what it is for.
fn command_json(name: &str, purpose: &str) -> (j: Json)
    ensures
        j@ == command_form(name@, purpose@),
{
    let mut fields: Vec<(String, Json)> = Vec::new();
    assert(field_views(fields@) =~= Seq::empty());
    field(&mut fields, "name", text_json(name));
    field(&mut fields, "purpose", text_json(purpose));
    assert(field_views(fields@) =~= command_form(name@, purpose@)->Object_0);
    object(fields)
}

/// Every command with what it is for.
pub open spec fn commands_form() -> JsonView {
    JsonView::Array(
        seq![
            command_form("agent-guide"@, "Print the contract that an agent follows when it wraps commands."@),
            command_form("capabilities"@, "List the commands in a machine-readable form."@),
            command_form("check-env"@, "Report which sandbox primitives this host offers."@),
            command_form("explain"@, "Show the effective policy of a run without running it."@),
            command_form("fs"@, "Checkpoint, diff, roll back, commit and replay a versioned workspace."@),
            command_form("run"@, "Run a command that can change the workspace under a supervised, observable sandbox."@),
        ],
    )
}

/// What the program can do, in a machine-readable form.
pub open spec fn capabilities_form() -> JsonView {
    JsonView::Object(
        seq![
            ("commands"@, commands_form()),
            (
                "guide"@,
                JsonView::Object(seq![("command"@, JsonView::Text("shadox agent-guide --format markdown"@))]),
            ),
            ("kind"@, JsonView::Text("shadox.agent_capabilities"@)),
            ("schema_version"@, JsonView::Number(SCHEMA_VERSION as int)),
        ],
    )
}

/// Gives what the program can do, in a machine-readable form.
pub fn capabilities_json() -> (j: Json)
    ensures
        j@ == capabilities_form(),
{
    let mut commands: Vec<Json> = Vec::new();
    commands.push(command_json("agent-guide", "Print the contract that an agent follows when it wraps commands."));
    commands.push(command_json("capabilities", "List the commands in a machine-readable form."));
    commands.push(command_json("check-env", "Report which sandbox primitives this host offers."));
    commands.push(command_json("explain", "Show the effective policy of a run without running it."));
    commands.push(command_json("fs", "Checkpoint, diff, roll back, commit and replay a versioned workspace."));
    commands.push(command_json("run", "Run a command that can change the workspace under a supervised, observable sandbox."));
    assert(json_views(commands@) =~= commands_form()->Array_0);
    let mut guide: Vec<(String, Json)> = Vec::new();
    assert(field_views(guide@) =~= Seq::empty());
    field(&mut guide, "command", text_json("shadox agent-guide --format markdown"));
    assert(field_views(guide@) =~= seq![("command"@, JsonView::Text("shadox agent-guide --format markdown"@))]);
    let mut fields: Vec<(String, Json)> = Vec::new();
    assert(field_views(fields@) =~= Seq::empty());
    field(&mut fields, "commands", array(commands));
    field(&mut fields, "guide", object(guide));
    field(&mut fields, "kind", text_json("shadox.agent_capabilities"));
    field(&mut fields, "schema_version", Json::UInt(SCHEMA_VERSION as u128));
    assert(field_views(fields@) =~= capabilities_form()->Object_0);
    object(fields)
}

} // verus!
