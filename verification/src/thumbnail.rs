//! The layout of the thumbnail directory and its migrations: thumbnails are
//! sharded by the first characters of their content id; version 2 moved
//! them into shards, version 3 moved them into one directory per library,
//! with whatever is left going to the ephemeral directory.
//!
//! Listing, creating and renaming files is I/O: the caller does it and
//! hands the outcomes in.
use vstd::prelude::*;
use crate::text::str_eq;
use vstd::string::StringSliceAdditionalSpecFns;

verus! {

/// The versions of the thumbnail directory's layout.
#[derive(Debug, Clone, Copy, PartialEq, Eq, Structural)]
pub enum ThumbnailVersion {
    V1,
    V2,
    V3,
    Unknown,
}

/// The number a version is stored as.
pub open spec fn version_number(v: ThumbnailVersion) -> i32 {
    match v {
        ThumbnailVersion::V1 => 1,
        ThumbnailVersion::V2 => 2,
        ThumbnailVersion::V3 => 3,
        ThumbnailVersion::Unknown => 0,
    }
}

impl ThumbnailVersion {
    /// The layout the code writes.
    pub fn latest() -> (r: ThumbnailVersion)
        ensures
            r == ThumbnailVersion::V3,
    {
        ThumbnailVersion::V3
    }

    /// The number the version is stored as.
    pub fn int_value(&self) -> (r: i32)
        ensures
            r == version_number(*self),
    {
        match self {
            ThumbnailVersion::V1 => 1,
            ThumbnailVersion::V2 => 2,
            ThumbnailVersion::V3 => 3,
            ThumbnailVersion::Unknown => 0,
        }
    }

    /// The version stored as `n`, if any.
    pub fn from_int(n: i32) -> (r: Option<ThumbnailVersion>)
        ensures
            match r {
                Some(v) => version_number(v) == n,
                None => n < 0 || n > 3,
            },
    {
        if n == 1 {
            Some(ThumbnailVersion::V1)
        } else if n == 2 {
            Some(ThumbnailVersion::V2)
        } else if n == 3 {
            Some(ThumbnailVersion::V3)
        } else if n == 0 {
            Some(ThumbnailVersion::Unknown)
        } else {
            None
        }
    }
}

/// The version to start from: the stored one, or version 1 when none is
/// stored yet (a fresh directory).
pub fn starting_version(stored: Option<ThumbnailVersion>) -> (r: ThumbnailVersion)
    ensures
        r == match stored {
            Some(v) => v,
            None => ThumbnailVersion::V1,
        },
{
    match stored {
        Some(v) => v,
        None => ThumbnailVersion::V1,
    }
}

/// Whether the directory needs migrating from `current`.
pub fn needs_migration(current: ThumbnailVersion) -> (r: bool)
    ensures
        r == (current != ThumbnailVersion::V3),
{
    current != ThumbnailVersion::V3
}

/// What one migration step does.
#[derive(Debug, Clone, Copy, PartialEq, Eq, Structural)]
pub enum MigrationAction {
    /// Version 1 to 2: move every thumbnail into its shard.
    MoveToShards,
    /// Version 2 to 3: move thumbnails into their library's directory.
    SegregateByLibrary,
    /// Any other step is refused.
    Unexpected { current_version: i32, next_version: i32 },
}

/// What the step from `current` to `next` does.
pub fn migration_action(current: ThumbnailVersion, next: ThumbnailVersion) -> (r: MigrationAction)
    ensures
        r == (if current == ThumbnailVersion::V1 && next == ThumbnailVersion::V2 {
            MigrationAction::MoveToShards
        } else if current == ThumbnailVersion::V2 && next == ThumbnailVersion::V3 {
            MigrationAction::SegregateByLibrary
        } else {
            MigrationAction::Unexpected {
                current_version: version_number(current),
                next_version: version_number(next),
            }
        }),
{
    match (current, next) {
        (ThumbnailVersion::V1, ThumbnailVersion::V2) => MigrationAction::MoveToShards,
        (ThumbnailVersion::V2, ThumbnailVersion::V3) => MigrationAction::SegregateByLibrary,
        _ => MigrationAction::Unexpected {
            current_version: current.int_value(),
            next_version: next.int_value(),
        },
    }
}

/// Whether the first `n` characters of `s` are ASCII (one byte each).
pub open spec fn ascii_prefix(s: Seq<char>, n: int) -> bool {
    s.len() >= n && forall|i: int| 0 <= i < n ==> (#[trigger] s[i] as u32) < 128
}

/// The shard of a content id: its first three characters.
pub fn get_shard_hex(cas_id: &str) -> (r: &str)
    requires
        ascii_prefix(cas_id@, 3),
    ensures
        r@ == cas_id@.subrange(0, 3),
{
    cas_id.substring_char(0, 3)
}

/// Where a library's thumbnail moves from and to, relative to the old
/// thumbnail directory and to the library's own.
#[derive(Debug, Clone)]
pub struct ThumbnailMove {
    pub shard: String,
    pub new_path: String,
    pub old_path: String,
}

/// The shard, new path and old path of the thumbnail of content `cas`.
pub open spec fn thumbnail_move(cas: Seq<char>) -> (Seq<char>, Seq<char>, Seq<char>) {
    (
        cas.subrange(0, 3),
        cas.subrange(0, 3) + "/"@ + cas + ".webp"@,
        cas.subrange(0, 2) + "/"@ + cas + ".webp"@,
    )
}

/// Where the thumbnail of content `cas_id` moves when it is segregated by
/// library: from its two-character shard to its library's three-character
/// shard.
pub fn library_thumbnail_move(cas_id: &str) -> (r: ThumbnailMove)
    requires
        ascii_prefix(cas_id@, 3),
    ensures
        (r.shard@, r.new_path@, r.old_path@) == thumbnail_move(cas_id@),
{
    let shard = get_shard_hex(cas_id);
    let mut new_path = String::from_str(shard);
    new_path.append("/");
    new_path.append(cas_id);
    new_path.append(".webp");
    let mut old_path = String::from_str(cas_id.substring_char(0, 2));
    old_path.append("/");
    old_path.append(cas_id);
    old_path.append(".webp");
    ThumbnailMove { shard: String::from_str(shard), new_path, old_path }
}

/// The texts of some strings, in order.
pub open spec fn texts(v: Seq<String>) -> Seq<Seq<char>> {
    v.map_values(|s: String| s@)
}

/// The moves of a library's thumbnails, for the content ids its file paths
/// hold (in order, skipping paths without one).
pub open spec fn library_moves(cas_ids: Seq<Option<String>>) -> Seq<(Seq<char>, Seq<char>, Seq<char>)>
    decreases cas_ids.len(),
{
    if cas_ids.len() == 0 {
        Seq::empty()
    } else {
        let rest = library_moves(cas_ids.drop_last());
        match cas_ids.last() {
            Some(c) => rest.push(thumbnail_move(c@)),
            None => rest,
        }
    }
}

/// The moves of a thumbnail plan, as texts.
pub open spec fn move_views(v: Seq<ThumbnailMove>) -> Seq<(Seq<char>, Seq<char>, Seq<char>)> {
    v.map_values(|m: ThumbnailMove| (m.shard@, m.new_path@, m.old_path@))
}

fn text_in(s: &Vec<String>, key: &str) -> (r: bool)
    ensures
        r == texts(s@).contains(key@),
{
    let mut i: usize = 0;
    while i < s.len()
        invariant
            i <= s@.len(),
            forall|j: int| 0 <= j < i ==> s@[j]@ != key@,
        decreases s.len() - i,
    {
        if str_eq(s[i].as_str(), key) {
            assert(texts(s@)[i as int] == key@);
            return true;
        }
        i = i + 1;
    }
    assert forall|j: int| 0 <= j < texts(s@).len() implies texts(s@)[j] != key@ by {
        assert(texts(s@)[j] == s@[j]@);
    }
    false
}

/// The shards of some thumbnail moves, in order.
pub open spec fn shards_of(v: Seq<ThumbnailMove>) -> Seq<Seq<char>> {
    v.map_values(|m: ThumbnailMove| m.shard@)
}

/// Plans the segregation of a library's thumbnails from the content ids
/// its file paths hold: the moves, in order, and the shards to create, each
/// once.
pub fn plan_library_segregation(cas_ids: &Vec<Option<String>>) -> (r: (Vec<ThumbnailMove>, Vec<String>))
    requires
        forall|i: int|
            0 <= i < cas_ids@.len() && (#[trigger] cas_ids@[i]) is Some ==> ascii_prefix(
                cas_ids@[i]->0@,
                3,
            ),
    ensures
        move_views(r.0@) == library_moves(cas_ids@),
        texts(r.1@).no_duplicates(),
        texts(r.1@).to_set() == shards_of(r.0@).to_set(),
{
    let mut moves: Vec<ThumbnailMove> = Vec::new();
    let mut shards: Vec<String> = Vec::new();
    let mut i: usize = 0;
    proof {
        assert(texts(shards@).to_set() =~= shards_of(moves@).to_set());
    }
    while i < cas_ids.len()
        invariant
            i <= cas_ids@.len(),
            forall|k: int|
                0 <= k < cas_ids@.len() && (#[trigger] cas_ids@[k]) is Some ==> ascii_prefix(
                    cas_ids@[k]->0@,
                    3,
                ),
            move_views(moves@) == library_moves(cas_ids@.subrange(0, i as int)),
            texts(shards@).no_duplicates(),
            texts(shards@).to_set() == shards_of(moves@).to_set(),
        decreases cas_ids.len() - i,
    {
        proof {
            assert(cas_ids@.subrange(0, i + 1).drop_last() =~= cas_ids@.subrange(0, i as int));
        }
        match &cas_ids[i] {
            Some(c) => {
                assert(cas_ids@[i as int] is Some);
                let m = library_thumbnail_move(c.as_str());
                let ghost shard = m.shard@;
                let ghost before_moves = moves@;
                let ghost before_shards = texts(shards@);
                if !text_in(&shards, m.shard.as_str()) {
                    shards.push(m.shard.clone());
                    proof {
                        assert(texts(shards@) =~= before_shards.push(shard));
                        before_shards.lemma_push_to_set_commute(shard);
                        assert forall|a: int, b: int| 0 <= a < b < texts(shards@).len() implies texts(
                            shards@,
                        )[a] != texts(shards@)[b] by {
                            assert(texts(shards@)[a] == before_shards[a]);
                            if b < before_shards.len() {
                                assert(texts(shards@)[b] == before_shards[b]);
                            }
                        }
                    }
                } else {
                    proof {
                        assert(before_shards.to_set().contains(shard));
                        assert(before_shards.to_set().insert(shard) =~= before_shards.to_set());
                    }
                }
                moves.push(m);
                proof {
                    assert(move_views(moves@) =~= move_views(before_moves).push(
                        (m.shard@, m.new_path@, m.old_path@),
                    ));
                    assert(shards_of(moves@) =~= shards_of(before_moves).push(shard));
                    shards_of(before_moves).lemma_push_to_set_commute(shard);
                }
            },
            None => {},
        }
        i = i + 1;
    }
    proof {
        assert(cas_ids@.subrange(0, cas_ids@.len() as int) =~= cas_ids@);
    }
    (moves, shards)
}

/// The outcome of moving one thumbnail.
#[derive(Debug, Clone)]
pub enum RenameOutcome {
    Moved,
    /// The thumbnail was never generated.
    NotFound,
    Failed(String),
}

/// How many thumbnails moved.
pub open spec fn moved_total(outcomes: Seq<RenameOutcome>) -> nat
    decreases outcomes.len(),
{
    if outcomes.len() == 0 {
        0
    } else {
        moved_total(outcomes.drop_last()) + if outcomes.last() is Moved {
            1nat
        } else {
            0nat
        }
    }
}

/// The count of a library's moved thumbnails: an error if some move failed
/// (one of the failures, as the moves run together), else the number of
/// thumbnails that moved; a missing thumbnail counts none.
pub fn moved_count(outcomes: &Vec<RenameOutcome>) -> (r: Result<u64, String>)
    requires
        outcomes@.len() <= u64::MAX,
    ensures
        match r {
            Ok(n) => n == moved_total(outcomes@) && forall|i: int|
                0 <= i < outcomes@.len() ==> !(#[trigger] outcomes@[i] is Failed),
            Err(e) => exists|i: int|
                0 <= i < outcomes@.len() && #[trigger] outcomes@[i] == RenameOutcome::Failed(e),
        },
{
    let mut n: u64 = 0;
    let mut i: usize = 0;
    while i < outcomes.len()
        invariant
            i <= outcomes@.len(),
            outcomes@.len() <= u64::MAX,
            n == moved_total(outcomes@.subrange(0, i as int)),
            n <= i,
            forall|k: int| 0 <= k < i ==> !(#[trigger] outcomes@[k] is Failed),
        decreases outcomes.len() - i,
    {
        proof {
            assert(outcomes@.subrange(0, i + 1).drop_last() =~= outcomes@.subrange(0, i as int));
        }
        match &outcomes[i] {
            RenameOutcome::Moved => {
                n = n + 1;
            },
            RenameOutcome::NotFound => {},
            RenameOutcome::Failed(e) => {
                assert(outcomes@[i as int] == RenameOutcome::Failed(*e));
                return Err(e.clone());
            },
        }
        i = i + 1;
    }
    proof {
        assert(outcomes@.subrange(0, outcomes@.len() as int) =~= outcomes@);
    }
    Ok(n)
}

/// Where a thumbnail left in the old layout goes: the shard of its file
/// name in the ephemeral directory, and its path there.
pub fn ephemeral_target(file_name: &str) -> (r: (String, String))
    requires
        ascii_prefix(file_name@, 3),
    ensures
        r.0@ == file_name@.subrange(0, 3),
        r.1@ == file_name@.subrange(0, 3) + "/"@ + file_name@,
{
    let shard = get_shard_hex(file_name);
    let mut path = String::from_str(shard);
    path.append("/");
    path.append(file_name);
    (String::from_str(shard), path)
}

/// Whether a directory emptied by the migration is an old shard (a
/// two-byte name) and is removed.
pub fn is_old_shard(name: &str) -> (r: bool)
    requires
        name.spec_bytes().len() <= usize::MAX,
    ensures
        r == (name.spec_bytes().len() == 2),
{
    name.len() == 2
}

/// Whether a file of the old layout is a thumbnail (its extension is `webp`).
pub fn is_thumbnail_extension(ext: Option<&str>) -> (r: bool)
    ensures
        r == (ext matches Some(e) && e@ == "webp"@),
{
    match ext {
        Some(e) => str_eq(e, "webp"),
        None => false,
    }
}

} // verus!
