//! Compacting and committing keep what the journals of a run hold.

use crate::run_id::{hyphenated, RunId};
use crate::versioned_fs::maintenance::{compacted_at, compaction};
use crate::versioned_fs::paths::pushed;
use crate::versioned_fs::store::{JournalFiles, StoreActionView, WorkspaceStore};
use vstd::prelude::*;

verus! {

/// The texts of the store's files after one step on them; nothing where it is refused.
pub open spec fn texts_after(texts: Map<Seq<char>, Seq<char>>, action: StoreActionView) -> Option<Map<Seq<char>, Seq<char>>> {
    match action {
        StoreActionView::MakeDirs(path) => Some(texts),
        StoreActionView::RemoveFile(path) => if texts.contains_key(path) {
            Some(texts.remove(path))
        } else {
            None
        },
        StoreActionView::RenameFile { from, to } => if texts.contains_key(from) {
            Some(texts.remove(from).insert(to, texts[from]))
        } else {
            None
        },
        StoreActionView::WriteText { path, text } => Some(texts.insert(path, text)),
    }
}

/// The texts of the store's files after the first `n` steps.
pub open spec fn texts_after_all(
    texts: Map<Seq<char>, Seq<char>>,
    actions: Seq<StoreActionView>,
    n: int,
) -> Option<Map<Seq<char>, Seq<char>>>
    decreases n,
{
    if n <= 0 {
        Some(texts)
    } else {
        match texts_after_all(texts, actions, n - 1) {
            Some(t) => texts_after(t, actions[n - 1]),
            None => None,
        }
    }
}

/// Which of a journal's two files are there.
pub open spec fn files_there(texts: Map<Seq<char>, Seq<char>>, active: Seq<char>, compacted: Seq<char>) -> JournalFiles {
    JournalFiles { active: texts.contains_key(active), compacted: texts.contains_key(compacted) }
}

/// Where a journal is read from: its open file, else its compacted one.
pub open spec fn found_at(files: JournalFiles, active: Seq<char>, compacted: Seq<char>) -> Option<Seq<char>> {
    if files.active {
        Some(active)
    } else if files.compacted {
        Some(compacted)
    } else {
        None
    }
}

/// What reading a journal gives.
pub open spec fn read_journal(texts: Map<Seq<char>, Seq<char>>, active: Seq<char>, compacted: Seq<char>) -> Option<Seq<char>> {
    match found_at(files_there(texts, active, compacted), active, compacted) {
        Some(path) => Some(texts[path]),
        None => None,
    }
}

/// Steps after steps.
proof fn lemma_texts_concat(
    texts: Map<Seq<char>, Seq<char>>,
    first: Seq<StoreActionView>,
    second: Seq<StoreActionView>,
    n: int,
)
    requires
        texts_after_all(texts, first, first.len() as int) is Some,
        0 <= n <= second.len(),
    ensures
        texts_after_all(texts, first + second, first.len() + n) == texts_after_all(
            texts_after_all(texts, first, first.len() as int)->0,
            second,
            n,
        ),
    decreases n,
{
    if n == 0 {
        lemma_texts_prefix(texts, first, second, first.len() as int);
    } else {
        lemma_texts_concat(texts, first, second, n - 1);
        assert((first + second)[first.len() + n - 1] == second[n - 1]);
    }
}

proof fn lemma_texts_prefix(
    texts: Map<Seq<char>, Seq<char>>,
    first: Seq<StoreActionView>,
    second: Seq<StoreActionView>,
    n: int,
)
    requires
        0 <= n <= first.len(),
    ensures
        texts_after_all(texts, first + second, n) == texts_after_all(texts, first, n),
    decreases n,
{
    if n > 0 {
        lemma_texts_prefix(texts, first, second, n - 1);
        assert((first + second)[n - 1] == first[n - 1]);
    }
}

/// Compacting a journal closes its open file, and reading the journal gives the
/// same text as before; every other file is left as it was.
pub proof fn compacting_keeps_a_journal(
    texts: Map<Seq<char>, Seq<char>>,
    active: Seq<char>,
    dir: Seq<char>,
    compacted: Seq<char>,
)
    requires
        active != compacted,
    ensures
        ({
            let there = files_there(texts, active, compacted);
            let steps = compaction(there, active, dir, compacted);
            let after = texts_after_all(texts, steps, steps.len() as int);
            &&& after is Some
            &&& !after->0.contains_key(active)
            &&& read_journal(after->0, active, compacted) == read_journal(texts, active, compacted)
            &&& found_at(files_there(after->0, active, compacted), active, compacted) == compacted_at(there, compacted)
            &&& forall|path: Seq<char>|
                path != active && path != compacted ==> #[trigger] after->0.contains_key(path) == texts.contains_key(path)
            &&& forall|path: Seq<char>|
                path != active && path != compacted && texts.contains_key(path) ==> #[trigger] after->0[path] == texts[path]
        }),
{
    reveal_with_fuel(texts_after_all, 4);
}

/// The text before a piece that is pushed onto a path.
spec fn stem(path: Seq<char>) -> Seq<char> {
    if path.len() == 0 || path.last() == '/' {
        path
    } else {
        path.push('/')
    }
}

proof fn lemma_pushed(path: Seq<char>, piece: Seq<char>)
    requires
        piece.len() > 0,
        piece[0] != '/',
    ensures
        pushed(path, piece) == stem(path) + piece,
{
    if path.len() == 0 {
        assert(stem(path) + piece =~= piece);
    }
}

/// The paths of a run's journals below the store.
proof fn lemma_journal_paths(store: &WorkspaceStore, run_id: RunId)
    ensures
        ({
            let run = hyphenated(run_id.value);
            let file = run + ".jsonl"@;
            let base = stem(store.store@);
            &&& file.len() == 42
            &&& store.spec_journal_path(run) == base + ("journals/"@ + file)
            &&& store.spec_compacted_journal_path(run) == base + ("journals/compacted/"@ + file)
            &&& store.spec_operation_journal_path(run) == base + ("operation-journals/"@ + file)
            &&& store.spec_compacted_operation_journal_path(run) == base + ("operation-journals/compacted/"@ + file)
            &&& store.spec_head_path() == base + "refs/head"@
        }),
{
    reveal_strlit(".jsonl");
    reveal_strlit("journals");
    reveal_strlit("operation-journals");
    reveal_strlit("compacted");
    reveal_strlit("refs");
    reveal_strlit("head");
    reveal_strlit("journals/");
    reveal_strlit("journals/compacted/");
    reveal_strlit("operation-journals/");
    reveal_strlit("operation-journals/compacted/");
    reveal_strlit("refs/head");
    let run = hyphenated(run_id.value);
    let file = run + ".jsonl"@;
    let base = stem(store.store@);
    assert(run.len() == 36);
    assert(file[0] == run[0]);
    lemma_first_digit(run_id);
    lemma_pushed(store.store@, "journals"@);
    lemma_pushed(store.store@, "operation-journals"@);
    lemma_pushed(store.store@, "refs"@);
    let journals = pushed(store.store@, "journals"@);
    let operations = pushed(store.store@, "operation-journals"@);
    let refs = pushed(store.store@, "refs"@);
    assert(journals.last() == 's' && operations.last() == 's' && refs.last() == 's');
    lemma_pushed(journals, file);
    lemma_pushed(operations, file);
    lemma_pushed(journals, "compacted"@);
    lemma_pushed(operations, "compacted"@);
    lemma_pushed(refs, "head"@);
    let closed = pushed(journals, "compacted"@);
    let closed_operations = pushed(operations, "compacted"@);
    assert(closed.last() == 'd' && closed_operations.last() == 'd');
    lemma_pushed(closed, file);
    lemma_pushed(closed_operations, file);
    assert(store.spec_journal_path(run) =~= base + ("journals/"@ + file));
    assert(store.spec_compacted_journal_path(run) =~= base + ("journals/compacted/"@ + file));
    assert(store.spec_operation_journal_path(run) =~= base + ("operation-journals/"@ + file));
    assert(store.spec_compacted_operation_journal_path(run) =~= base + ("operation-journals/compacted/"@ + file));
    assert(store.spec_head_path() =~= base + "refs/head"@);
}

/// The text of an identifier starts with a digit.
proof fn lemma_first_digit(run_id: RunId)
    ensures
        hyphenated(run_id.value)[0] != '/',
{
    let digits = crate::run_id::simple(run_id.value);
    assert(hyphenated(run_id.value)[0] == digits[0]);
    let n = (run_id.value as int / vstd::arithmetic::power::pow(16, 31)) % 16;
    assert(0 <= n < 16);
    assert(digits[0] == crate::number::hex_digit(n));
}

/// The four files of a run's journals are four, and none of them is the head's.
pub proof fn journal_files_differ(store: &WorkspaceStore, run_id: RunId)
    ensures
        ({
            let run = hyphenated(run_id.value);
            let a = store.spec_journal_path(run);
            let b = store.spec_compacted_journal_path(run);
            let c = store.spec_operation_journal_path(run);
            let d = store.spec_compacted_operation_journal_path(run);
            let h = store.spec_head_path();
            &&& a != b && a != c && a != d && b != c && b != d && c != d
            &&& h != a && h != b && h != c && h != d
        }),
{
    reveal_strlit("journals/");
    reveal_strlit("journals/compacted/");
    reveal_strlit("operation-journals/");
    reveal_strlit("operation-journals/compacted/");
    reveal_strlit("refs/head");
    lemma_journal_paths(store, run_id);
    let run = hyphenated(run_id.value);
    let at = stem(store.store@).len() as int;
    assert(store.spec_journal_path(run).len() == at + 51);
    assert(store.spec_compacted_journal_path(run).len() == at + 61);
    assert(store.spec_operation_journal_path(run).len() == at + 61);
    assert(store.spec_compacted_operation_journal_path(run).len() == at + 71);
    assert(store.spec_head_path().len() == at + 9);
    assert(store.spec_compacted_journal_path(run)[at] == 'j');
    assert(store.spec_operation_journal_path(run)[at] == 'o');
}

/// Compacting a run's journals: both are read as before, no longer from their
/// open files, and every other file of the store is left as it was.
pub proof fn compacting_keeps_the_journals_of_a_run(store: &WorkspaceStore, texts: Map<Seq<char>, Seq<char>>, run_id: RunId)
    ensures
        ({
            let run = hyphenated(run_id.value);
            let active = store.spec_journal_path(run);
            let closed = store.spec_compacted_journal_path(run);
            let active_ops = store.spec_operation_journal_path(run);
            let closed_ops = store.spec_compacted_operation_journal_path(run);
            let steps = store.spec_compact_steps(
                run,
                files_there(texts, active, closed),
                files_there(texts, active_ops, closed_ops),
            );
            let after = texts_after_all(texts, steps, steps.len() as int);
            &&& after is Some
            &&& !after->0.contains_key(active)
            &&& !after->0.contains_key(active_ops)
            &&& read_journal(after->0, active, closed) == read_journal(texts, active, closed)
            &&& read_journal(after->0, active_ops, closed_ops) == read_journal(texts, active_ops, closed_ops)
            &&& forall|path: Seq<char>|
                path != active && path != closed && path != active_ops && path != closed_ops ==> #[trigger] after->0.contains_key(path)
                    == texts.contains_key(path)
            &&& forall|path: Seq<char>|
                path != active && path != closed && path != active_ops && path != closed_ops && texts.contains_key(path)
                    ==> #[trigger] after->0[path] == texts[path]
        }),
{
    let run = hyphenated(run_id.value);
    let active = store.spec_journal_path(run);
    let closed = store.spec_compacted_journal_path(run);
    let active_ops = store.spec_operation_journal_path(run);
    let closed_ops = store.spec_compacted_operation_journal_path(run);
    let dir = pushed(pushed(store.store@, "journals"@), "compacted"@);
    let dir_ops = pushed(pushed(store.store@, "operation-journals"@), "compacted"@);
    journal_files_differ(store, run_id);
    let first = compaction(files_there(texts, active, closed), active, dir, closed);
    compacting_keeps_a_journal(texts, active, dir, closed);
    let middle = texts_after_all(texts, first, first.len() as int)->0;
    assert(files_there(middle, active_ops, closed_ops) == files_there(texts, active_ops, closed_ops)) by {
        assert(middle.contains_key(active_ops) == texts.contains_key(active_ops));
        assert(middle.contains_key(closed_ops) == texts.contains_key(closed_ops));
    }
    let second = compaction(files_there(middle, active_ops, closed_ops), active_ops, dir_ops, closed_ops);
    compacting_keeps_a_journal(middle, active_ops, dir_ops, closed_ops);
    lemma_texts_concat(texts, first, second, second.len() as int);
    let steps = first + second;
    assert(steps.len() == first.len() + second.len());
    let after = texts_after_all(middle, second, second.len() as int)->0;
    assert(texts_after_all(texts, steps, steps.len() as int) == Some(after));
    assert(after.contains_key(active) == middle.contains_key(active));
    assert(after.contains_key(closed) == middle.contains_key(closed));
    if middle.contains_key(closed) {
        assert(after[closed] == middle[closed]);
    }
    if texts.contains_key(active_ops) {
        assert(middle[active_ops] == texts[active_ops]);
    }
    if texts.contains_key(closed_ops) {
        assert(middle[closed_ops] == texts[closed_ops]);
    }
    assert forall|path: Seq<char>|
        path != active && path != closed && path != active_ops && path != closed_ops implies #[trigger] after.contains_key(path)
        == texts.contains_key(path) by {
        assert(middle.contains_key(path) == texts.contains_key(path));
    }
    assert forall|path: Seq<char>|
        path != active && path != closed && path != active_ops && path != closed_ops && texts.contains_key(path) implies #[trigger] after[path]
        == texts[path] by {
        assert(middle.contains_key(path) == texts.contains_key(path));
        assert(middle[path] == texts[path]);
    }
}

/// Committing a checkpoint of a run makes it the head, and both journals of the
/// run are read as before.
pub proof fn committing_keeps_the_journals_of_a_run(
    store: &WorkspaceStore,
    texts: Map<Seq<char>, Seq<char>>,
    run_id: RunId,
    checkpoint_id: Seq<char>,
)
    ensures
        ({
            let run = hyphenated(run_id.value);
            let active = store.spec_journal_path(run);
            let closed = store.spec_compacted_journal_path(run);
            let active_ops = store.spec_operation_journal_path(run);
            let closed_ops = store.spec_compacted_operation_journal_path(run);
            let steps = store.spec_commit_steps(
                checkpoint_id,
                Some(run_id),
                files_there(texts, active, closed),
                files_there(texts, active_ops, closed_ops),
            );
            let after = texts_after_all(texts, steps, steps.len() as int);
            &&& after is Some
            &&& after->0.contains_key(store.spec_head_path())
            &&& after->0[store.spec_head_path()] == checkpoint_id + "\n"@
            &&& read_journal(after->0, active, closed) == read_journal(texts, active, closed)
            &&& read_journal(after->0, active_ops, closed_ops) == read_journal(texts, active_ops, closed_ops)
        }),
{
    let run = hyphenated(run_id.value);
    let active = store.spec_journal_path(run);
    let closed = store.spec_compacted_journal_path(run);
    let active_ops = store.spec_operation_journal_path(run);
    let closed_ops = store.spec_compacted_operation_journal_path(run);
    let head = store.spec_head_path();
    let text = checkpoint_id + "\n"@;
    journal_files_differ(store, run_id);
    let first = seq![StoreActionView::WriteText { path: head, text }];
    let written = texts.insert(head, text);
    reveal_with_fuel(texts_after_all, 2);
    assert(texts_after_all(texts, first, 1) == Some(written));
    assert(files_there(written, active, closed) == files_there(texts, active, closed));
    assert(files_there(written, active_ops, closed_ops) == files_there(texts, active_ops, closed_ops));
    let second = store.spec_compact_steps(
        run,
        files_there(texts, active, closed),
        files_there(texts, active_ops, closed_ops),
    );
    compacting_keeps_the_journals_of_a_run(store, written, run_id);
    lemma_texts_concat(texts, first, second, second.len() as int);
    assert((first + second).len() == 1 + second.len());
    let after = texts_after_all(written, second, second.len() as int)->0;
    assert(after.contains_key(head) == written.contains_key(head));
    assert(after[head] == written[head]);
    assert(read_journal(written, active, closed) == read_journal(texts, active, closed));
    assert(read_journal(written, active_ops, closed_ops) == read_journal(texts, active_ops, closed_ops));
}

} // verus!
