//! What a snapshot of a workspace records.

use crate::laws::texts::{lacks, the_first_piece_ends_at_the_first_separator};
use crate::number::hex;
use crate::string_map::StringMap;
use crate::text::split;
use crate::versioned_fs::entry::{manifest, EntryView, WorkspaceEntry};
use crate::versioned_fs::object::{content_id, sha256};
use crate::versioned_fs::paths::should_ignore;
use crate::versioned_fs::snapshot::{visit, Found};
use crate::versioned_fs::tree::{snapshot, Node};
use vstd::prelude::*;

verus! {

/// The name at the top of a path: what stands before its first slash.
pub open spec fn top(path: Seq<char>) -> Seq<char>
    decreases path.len(),
{
    if path.len() == 0 || path[0] == '/' {
        Seq::empty()
    } else {
        seq![path[0]] + top(path.drop_first())
    }
}

/// The path lies in the version control, the store, or what is built or installed.
pub open spec fn set_aside(path: Seq<char>) -> bool {
    top(path) == ".git"@ || top(path) == ".shadox"@ || top(path) == "target"@ || top(path) == "node_modules"@
}

/// The name at the top of a path holds no slash, and a slash follows it unless it is all.
proof fn lemma_top(path: Seq<char>)
    ensures
        lacks(top(path), '/'),
        top(path).len() <= path.len(),
        path.take(top(path).len() as int) == top(path),
        top(path).len() < path.len() ==> path[top(path).len() as int] == '/',
    decreases path.len(),
{
    if path.len() == 0 || path[0] == '/' {
        assert(path.take(0) =~= Seq::<char>::empty());
    } else {
        let rest = path.drop_first();
        lemma_top(rest);
        let name = top(path);
        assert(name =~= seq![path[0]] + top(rest));
        assert(path.take(name.len() as int) =~= name) by {
            assert forall|i: int| 0 <= i < name.len() implies path[i] == name[i] by {
                if i > 0 {
                    assert(rest.take(top(rest).len() as int)[i - 1] == top(rest)[i - 1]);
                }
            }
        }
        assert forall|i: int| 0 <= i < name.len() implies #[trigger] name[i] != '/' by {
            if i > 0 {
                assert(top(rest)[i - 1] != '/');
            }
        }
    }
}

proof fn lemma_first_piece(path: Seq<char>)
    ensures
        split(path, '/')[0] == top(path),
{
    lemma_top(path);
    let name = top(path);
    if name.len() < path.len() {
        let rest = path.skip(name.len() as int + 1);
        assert(path =~= name.push('/') + rest);
        the_first_piece_ends_at_the_first_separator(name, rest, '/');
    } else {
        assert(path =~= name);
        the_first_piece_ends_at_the_first_separator(name, name, '/');
    }
}

/// A path is skipped exactly where the name at its top is one of the four.
pub proof fn four_names_are_set_aside(path: &str, skipped: bool)
    requires
        call_ensures(should_ignore, (path,), skipped),
    ensures
        skipped <==> set_aside(path@),
{
    lemma_first_piece(path@);
}

/// A snapshot records every file and directory that is not set aside, and
/// nothing else: a directory as such, a file with its size, its permission and
/// the digest of its content.
pub proof fn a_snapshot_records_all_that_is_not_set_aside(tree: Map<Seq<char>, Node>, path: Seq<char>)
    ensures
        snapshot(tree).contains_key(path) <==> tree.contains_key(path) && !set_aside(path),
        snapshot(tree).contains_key(path) ==> snapshot(tree)[path] == match tree[path] {
            Node::File { bytes, readonly } => EntryView::File {
                size: bytes.len() as u64,
                hash: hex(sha256(bytes)),
                object: hex(sha256(bytes)),
                readonly,
            },
            Node::Directory => EntryView::Directory,
        },
{
    lemma_first_piece(path);
}

/// One visit records a file or a directory that is not set aside, and nothing
/// else that it may find; only a directory that is recorded is entered.
pub proof fn a_visit_records_what_it_finds(
    entries: &mut StringMap<WorkspaceEntry>,
    relative: String,
    found: Found,
    bytes: &[u8],
    descend: bool,
)
    requires
        call_ensures(visit, (entries, relative, found, bytes), descend),
    ensures
        descend <==> found is Directory && !set_aside(relative@),
        manifest(final(entries)@) == (match found {
            Found::Directory => if set_aside(relative@) {
                manifest(old(entries)@)
            } else {
                manifest(old(entries)@).insert(relative@, EntryView::Directory)
            },
            Found::File { size, readonly } => if set_aside(relative@) {
                manifest(old(entries)@)
            } else {
                manifest(old(entries)@).insert(
                    relative@,
                    EntryView::File { size, hash: hex(sha256(bytes@)), object: hex(sha256(bytes@)), readonly },
                )
            },
            Found::Symlink => manifest(old(entries)@),
            Found::Other => manifest(old(entries)@),
        }),
{
    lemma_first_piece(relative@);
}

/// The identifier of content is its digest in hexadecimal.
pub proof fn content_is_known_by_its_digest(bytes: &[u8], id: String)
    requires
        call_ensures(content_id, (bytes,), id),
    ensures
        id@ == hex(sha256(bytes@)),
{
}

/// The text of an identifier is digits and hyphens, without a slash.
pub proof fn lemma_identifier_has_no_slash(value: u128)
    ensures
        lacks(crate::run_id::hyphenated(value), '/'),
{
    let t = crate::run_id::hyphenated(value);
    let d = crate::run_id::simple(value);
    assert forall|i: int| 0 <= i < t.len() implies #[trigger] t[i] != '/' by {
        if i != 8 && i != 13 && i != 18 && i != 23 {
            let k = if i < 8 {
                i
            } else if i < 13 {
                i - 1
            } else if i < 18 {
                i - 2
            } else if i < 23 {
                i - 3
            } else {
                i - 4
            };
            assert(t[i] == d[k]);
            let n = (value as int / vstd::arithmetic::power::pow(16, (31 - k) as nat)) % 16;
            assert(0 <= n < 16);
            assert(d[k] == crate::number::hex_digit(n));
        }
    }
}

} // verus!
