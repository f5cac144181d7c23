# shadox

`shadox` runs ordinary commands under a small set of Linux restrictions and
tells an agent, in a form that it can read, what the commands did. It can keep
the workspace around each command, so that a command behaves like a transaction:
inspect it, keep it, undo it, or look at any state in between.

The library under `src/` holds the decisions and the formats. It is written in
Verus: what each function returns is stated in its contract and proved. The
program under `app/` does the input and output around it.

## The library

| Module | What it holds |
| --- | --- |
| `config`, `cli` | requests, profiles, the effective policy, what flags change |
| `runner` | the course of a run, its events, classification of failures, the filesystem rules, the system call filter, what is read from procfs and cgroups, bounded output |
| `diagnostics`, `report` | hints and reports |
| `trace`, `observer` | trace events and the findings of observer scripts |
| `versioned_fs` | snapshots, diffs, journals, rollback, replay, commit, verification and collection of the workspace store |
| `fuse_adapter` | the inode numbers and names of the recording mount |
| `agent` | what an agent can ask the program about itself |
| `json`, `json_laws`, `forms` | JSON values, their text, and the forms of the types above |
| `text`, `number`, `string_map`, `run_id`, `metadata` | the basics |

## What is proved of the whole

- Rolling back after a command brings every recorded path of the workspace back,
  whatever files and directories the command left there; links are not recorded
  (`versioned_fs::tree::rollback_undoes_a_command`).
- A checkpoint that is written out gives the tree that it recorded
  (`versioned_fs::tree::materialising_gives_the_checkpoint`).
- Replaying the journal of a run on its base checkpoint reaches its target
  (`versioned_fs::redo_laws::replaying_the_journal_reaches_the_target`), in
  whatever order its changes are redone (`redoing_in_any_order_reaches_the_target`).
- Swapping the two sides of a diff turns every change round
  (`versioned_fs::diff_laws::swapping_the_sides_reverses_a_diff`).
- Replaying recorded operations reaches the state after each of them
  (`versioned_fs::replay_laws::a_replay_reaches_every_event`), and a restore
  brings the workspace there (`versioned_fs::restore::a_restore_goes_back_to_any_event`).
- What is appended to an operation journal extends it by one event
  (`versioned_fs::lines::appending_extends_the_journal`), and its text tells its
  events (`a_journal_tells_its_events`).
- Compacting and committing keep what the journals of a run hold
  (`versioned_fs::compaction_laws::compacting_keeps_the_journals_of_a_run`,
  `committing_keeps_the_journals_of_a_run`).
- Whatever a journal says, redoing it stays inside its directory
  (`versioned_fs::operation::redoing_stays_inside`).
- Collecting objects removes exactly those that no checkpoint needs
  (`versioned_fs::maintenance::collection_removes_exactly_the_unreferenced`), so
  that a second collection finds none (`a_second_collection_removes_nothing`).
- A run fails closed, and a degraded run says so
  (`runner::driver::a_run_fails_closed`, `a_degraded_run_says_so`).
- The system call filter stops exactly the calls that it lists
  (`runner::seccomp::the_filter_stops_exactly_the_listed_calls`); that of the
  basic profile lists the blocked calls by their numbers on the machine
  (`the_basic_filter_stops_exactly_the_blocked_calls`).

The library takes the time, file contents and what observer scripts return as
arguments, and gives back the steps to take; the tests under `tests/` perform
those steps on a tree held in memory.
