//! The indexer's decisions while walking a location: which entries the
//! indexer rules keep, which directories are walked next and with what
//! accept-by-children state, which ancestors are indexed along with an
//! entry, how a directory's findings join the paths indexed so far, and
//! which of those are new to the database.
//!
//! Reading directories, metadata and applying a rule to a path are I/O:
//! the caller does them and hands their outcomes in.
use vstd::prelude::*;
use crate::text::str_eq;

verus! {

/// The kinds of indexer rules.
#[derive(Debug, Clone, Copy, PartialEq, Eq, Structural)]
pub enum RuleKind {
    AcceptFilesByGlob,
    RejectFilesByGlob,
    AcceptIfChildrenDirectoriesArePresent,
    RejectIfChildrenDirectoriesArePresent,
}

/// What the filesystem says of an entry.
#[derive(Debug, Clone, Copy, PartialEq, Eq, Structural)]
pub struct EntryKind {
    pub is_symlink: bool,
    pub is_dir: bool,
}

/// The outcomes, for one directory entry, of everything the walker may
/// look at, in the order it looks: the reject-by-glob rules (none when no
/// rule of that kind exists), the entry's metadata, its inode and device,
/// the reject- and accept-by-children rules, and the accept-by-glob rules.
/// The walker stops looking at the first outcome that decides.
#[derive(Debug)]
pub struct EntryFacts {
    pub reject_glob: Option<Vec<bool>>,
    pub metadata: Result<EntryKind, String>,
    pub inode: Result<(u64, u64), String>,
    pub reject_children: Option<Vec<Result<bool, String>>>,
    pub accept_children: Option<Vec<Result<bool, String>>>,
    pub accept_glob: Option<Vec<bool>>,
}

/// What the walker does with one entry.
#[derive(Debug, Clone)]
pub struct EntryDecision {
    /// The errors it records, in order.
    pub errors: Vec<String>,
    /// For a directory that is walked next: its accept-by-children state.
    pub walk_into: Option<Option<bool>>,
    /// Whether the entry (and its ancestors) are indexed.
    pub index: bool,
}

/// The outcome of the reject-by-children rules of a directory.
#[derive(Debug, Clone, PartialEq, Eq)]
pub enum ChildrenCheck {
    Passed,
    Rejected,
    Failed(String),
}

/// The reject-by-children check: the first rule that does not pass decides.
pub open spec fn reject_check(rs: Seq<Result<bool, String>>) -> ChildrenCheck
    decreases rs.len(),
{
    if rs.len() == 0 {
        ChildrenCheck::Passed
    } else {
        match rs[0] {
            Ok(true) => reject_check(rs.drop_first()),
            Ok(false) => ChildrenCheck::Rejected,
            Err(e) => ChildrenCheck::Failed(e),
        }
    }
}

/// How many accept-by-children rules are applied: up to and including the
/// first that accepts, or all.
pub open spec fn accept_scan_len(rs: Seq<Result<bool, String>>) -> nat
    decreases rs.len(),
{
    if rs.len() == 0 {
        0
    } else if rs[0] == Ok::<bool, String>(true) {
        1
    } else {
        1 + accept_scan_len(rs.drop_first())
    }
}

/// Whether some accept-by-children rule accepts.
pub open spec fn some_accepts(rs: Seq<Result<bool, String>>) -> bool {
    exists|i: int| 0 <= i < rs.len() && rs[i] == Ok::<bool, String>(true)
}

/// The errors of a sequence of rule outcomes, in order.
pub open spec fn rule_errors(rs: Seq<Result<bool, String>>) -> Seq<String>
    decreases rs.len(),
{
    if rs.len() == 0 {
        Seq::empty()
    } else {
        match rs.last() {
            Err(e) => rule_errors(rs.drop_last()).push(e),
            Ok(_) => rule_errors(rs.drop_last()),
        }
    }
}

/// The accept-by-children state of a directory whose parent's state is
/// `parent`, and the errors recorded on the way: accepted by the first rule
/// that accepts; else rejected unless the parent already decided.
pub open spec fn accept_children_state(parent: Option<bool>, rules: Option<Seq<Result<bool, String>>>) -> (
    Option<bool>,
    Seq<String>,
) {
    match rules {
        None => (parent, Seq::empty()),
        Some(rs) => {
            let errors = rule_errors(rs.subrange(0, accept_scan_len(rs) as int));
            if some_accepts(rs) {
                (Some(true), errors)
            } else if parent is None {
                (Some(false), errors)
            } else {
                (parent, errors)
            }
        },
    }
}

/// Whether the accept-by-glob rules accept an entry: all do when none exists.
pub open spec fn glob_accepts(rules: Option<Seq<bool>>) -> bool {
    match rules {
        None => true,
        Some(v) => v.contains(true),
    }
}

/// What the walker does with an entry of a directory whose
/// accept-by-children state is `parent`: (errors, directory to walk
/// next with its state, whether the entry is indexed).
pub open spec fn entry_decision(parent: Option<bool>, f: EntryFacts) -> (Seq<String>, Option<Option<bool>>, bool) {
    if f.reject_glob is Some && f.reject_glob->0@.contains(false) {
        (Seq::empty(), None, false)
    } else {
        match f.metadata {
            Err(e) => (seq![e], None, false),
            Ok(k) => if k.is_symlink {
                (Seq::empty(), None, false)
            } else {
                match f.inode {
                    Err(e) => (seq![e], None, false),
                    Ok(_) => {
                        let check = if k.is_dir && f.reject_children is Some {
                            reject_check(f.reject_children->0@)
                        } else {
                            ChildrenCheck::Passed
                        };
                        match check {
                            ChildrenCheck::Rejected => (Seq::empty(), None, false),
                            ChildrenCheck::Failed(e) => (seq![e], None, false),
                            ChildrenCheck::Passed => {
                                let (state, errors) = if k.is_dir {
                                    accept_children_state(
                                        parent,
                                        match f.accept_children {
                                            Some(v) => Some(v@),
                                            None => None,
                                        },
                                    )
                                } else {
                                    (parent, Seq::empty())
                                };
                                let walk = if k.is_dir {
                                    Some(state)
                                } else {
                                    None
                                };
                                let glob = glob_accepts(
                                    match f.accept_glob {
                                        Some(v) => Some(v@),
                                        None => None,
                                    },
                                );
                                (errors, walk, glob && (state is None || state == Some(true)))
                            },
                        }
                    },
                }
            },
        }
    }
}

fn contains_bool(v: &Vec<bool>, x: bool) -> (r: bool)
    ensures
        r == v@.contains(x),
{
    let mut i: usize = 0;
    while i < v.len()
        invariant
            i <= v@.len(),
            forall|j: int| 0 <= j < i ==> v@[j] != x,
        decreases v.len() - i,
    {
        if v[i] == x {
            assert(v@[i as int] == x);
            return true;
        }
        i = i + 1;
    }
    false
}

/// Applies the reject-by-children rules' outcomes of a directory in order:
/// the first that does not pass decides.
pub fn reject_by_children(rs: &Vec<Result<bool, String>>) -> (r: ChildrenCheck)
    ensures
        r == reject_check(rs@),
{
    let mut i: usize = 0;
    assert(rs@.subrange(0, rs@.len() as int) =~= rs@);
    while i < rs.len()
        invariant
            i <= rs@.len(),
            reject_check(rs@) == reject_check(rs@.subrange(i as int, rs@.len() as int)),
        decreases rs.len() - i,
    {
        proof {
            let tail = rs@.subrange(i as int, rs@.len() as int);
            assert(tail.drop_first() =~= rs@.subrange(i + 1, rs@.len() as int));
            assert(tail[0] == rs@[i as int]);
        }
        match &rs[i] {
            Ok(true) => {},
            Ok(false) => {
                return ChildrenCheck::Rejected;
            },
            Err(e) => {
                return ChildrenCheck::Failed(e.clone());
            },
        }
        i = i + 1;
    }
    assert(rs@.subrange(i as int, rs@.len() as int).len() == 0);
    ChildrenCheck::Passed
}

proof fn lemma_rule_errors_push(rs: Seq<Result<bool, String>>, x: Result<bool, String>)
    ensures
        rule_errors(rs.push(x)) == match x {
            Err(e) => rule_errors(rs).push(e),
            Ok(_) => rule_errors(rs),
        },
{
    assert(rs.push(x).drop_last() =~= rs);
}

proof fn lemma_accept_scan(rs: Seq<Result<bool, String>>, i: int)
    requires
        0 <= i <= rs.len(),
        forall|j: int| 0 <= j < i ==> rs[j] != Ok::<bool, String>(true),
    ensures
        accept_scan_len(rs) == i + accept_scan_len(rs.subrange(i, rs.len() as int)),
    decreases i,
{
    if i == 0 {
        assert(rs.subrange(0, rs.len() as int) =~= rs);
    } else {
        let t = rs.drop_first();
        assert forall|j: int| 0 <= j < i - 1 implies t[j] != Ok::<bool, String>(true) by {
            assert(t[j] == rs[j + 1]);
        }
        lemma_accept_scan(t, i - 1);
        assert(t.subrange(i - 1, t.len() as int) =~= rs.subrange(i, rs.len() as int));
        assert(rs[0] != Ok::<bool, String>(true));
    }
}

/// Applies the accept-by-children rules' outcomes of a directory whose
/// parent's state is `parent`: its state, and the errors recorded.
pub fn accept_by_children(parent: Option<bool>, rules: Option<&Vec<Result<bool, String>>>) -> (r: (
    Option<bool>,
    Vec<String>,
))
    ensures
        (r.0, r.1@) == accept_children_state(
            parent,
            match rules {
                Some(v) => Some(v@),
                None => None,
            },
        ),
{
    let rs = match rules {
        None => {
            return (parent, Vec::new());
        },
        Some(rs) => rs,
    };
    let mut errors: Vec<String> = Vec::new();
    let mut i: usize = 0;
    while i < rs.len()
        invariant
            i <= rs@.len(),
            rules == Some(rs),
            forall|j: int| 0 <= j < i ==> rs@[j] != Ok::<bool, String>(true),
            errors@ == rule_errors(rs@.subrange(0, i as int)),
        decreases rs.len() - i,
    {
        proof {
            assert(rs@.subrange(0, i + 1) =~= rs@.subrange(0, i as int).push(rs@[i as int]));
            lemma_rule_errors_push(rs@.subrange(0, i as int), rs@[i as int]);
        }
        match &rs[i] {
            Ok(true) => {
                proof {
                    lemma_accept_scan(rs@, i as int);
                    let t = rs@.subrange(i as int, rs@.len() as int);
                    assert(t[0] == rs@[i as int]);
                    assert(rs@[i as int] == Ok::<bool, String>(true));
                    assert(accept_scan_len(t) == 1);
                    assert(accept_scan_len(rs@) == i + 1);
                    assert(some_accepts(rs@));
                    assert(rs@.subrange(0, accept_scan_len(rs@) as int) =~= rs@.subrange(0, i + 1));
                    assert(errors@ == rule_errors(rs@.subrange(0, i + 1)));
                }
                return (Some(true), errors);
            },
            Ok(false) => {},
            Err(e) => {
                errors.push(e.clone());
            },
        }
        i = i + 1;
    }
    proof {
        lemma_accept_scan(rs@, i as int);
        assert(rs@.subrange(i as int, rs@.len() as int).len() == 0);
        assert(rs@.subrange(0, rs@.len() as int) =~= rs@);
    }
    if parent.is_none() {
        (Some(false), errors)
    } else {
        (parent, errors)
    }
}

/// Decides what the walker does with one directory entry, given the
/// accept-by-children state `parent` of the directory being walked.
pub fn walk_entry(parent: Option<bool>, facts: &EntryFacts) -> (r: EntryDecision)
    ensures
        (r.errors@, r.walk_into, r.index) == entry_decision(parent, *facts),
{
    match &facts.reject_glob {
        Some(v) => {
            if contains_bool(v, false) {
                return EntryDecision { errors: Vec::new(), walk_into: None, index: false };
            }
        },
        None => {},
    }
    let kind = match &facts.metadata {
        Err(e) => {
            let mut errors = Vec::new();
            errors.push(e.clone());
            proof {
                assert(errors@ =~= seq![*e]);
            }
            return EntryDecision { errors, walk_into: None, index: false };
        },
        Ok(k) => *k,
    };
    if kind.is_symlink {
        return EntryDecision { errors: Vec::new(), walk_into: None, index: false };
    }
    match &facts.inode {
        Err(e) => {
            let mut errors = Vec::new();
            errors.push(e.clone());
            proof {
                assert(errors@ =~= seq![*e]);
            }
            return EntryDecision { errors, walk_into: None, index: false };
        },
        Ok(_) => {},
    }
    let mut state = parent;
    let mut errors: Vec<String> = Vec::new();
    let mut walk_into: Option<Option<bool>> = None;
    if kind.is_dir {
        match &facts.reject_children {
            Some(rs) => match reject_by_children(rs) {
                ChildrenCheck::Rejected => {
                    return EntryDecision { errors: Vec::new(), walk_into: None, index: false };
                },
                ChildrenCheck::Failed(e) => {
                    let mut errors = Vec::new();
                    errors.push(e.clone());
                    proof {
                        assert(errors@ =~= seq![e]);
                    }
                    return EntryDecision { errors, walk_into: None, index: false };
                },
                ChildrenCheck::Passed => {},
            },
            None => {},
        }
        let (s, es) = accept_by_children(parent, facts.accept_children.as_ref());
        state = s;
        errors = es;
        walk_into = Some(state);
    }
    let glob = match &facts.accept_glob {
        None => true,
        Some(v) => contains_bool(v, true),
    };
    let index = glob && (state.is_none() || state == Some(true));
    EntryDecision { errors, walk_into, index }
}

/// The metadata the walker records of a path.
#[derive(Debug, Clone, Copy, PartialEq, Eq, Structural)]
pub struct FilePathMetadata {
    pub inode: u64,
    pub device: u64,
    pub size_in_bytes: u64,
    pub created_at: i64,
    pub modified_at: i64,
}

/// A path found while walking, identified by its key (the location-relative
/// path), with its metadata once read.
#[derive(Debug, Clone)]
pub struct WalkingEntry {
    pub key: String,
    pub maybe_metadata: Option<FilePathMetadata>,
}

/// A path the walker reports as new to the database.
#[derive(Debug, Clone)]
pub struct WalkedEntry {
    pub key: String,
    pub metadata: FilePathMetadata,
}

/// The keys of some entries, in order.
pub open spec fn keys(s: Seq<WalkingEntry>) -> Seq<Seq<char>> {
    s.map_values(|e: WalkingEntry| e.key@)
}

fn key_in(s: &Vec<WalkingEntry>, key: &str) -> (r: bool)
    ensures
        r == keys(s@).contains(key@),
{
    let mut i: usize = 0;
    while i < s.len()
        invariant
            i <= s@.len(),
            forall|j: int| 0 <= j < i ==> s@[j].key@ != key@,
        decreases s.len() - i,
    {
        if str_eq(s[i].key.as_str(), key) {
            assert(keys(s@)[i as int] == key@);
            return true;
        }
        i = i + 1;
    }
    assert forall|j: int| 0 <= j < keys(s@).len() implies keys(s@)[j] != key@ by {
        assert(keys(s@)[j] == s@[j].key@);
    }
    false
}

fn text_in(s: &Vec<String>, key: &str) -> (r: bool)
    ensures
        r == s@.map_values(|t: String| t@).contains(key@),
{
    let ghost ts = s@.map_values(|t: String| t@);
    let mut i: usize = 0;
    while i < s.len()
        invariant
            i <= s@.len(),
            ts == s@.map_values(|t: String| t@),
            forall|j: int| 0 <= j < i ==> s@[j]@ != key@,
        decreases s.len() - i,
    {
        if str_eq(s[i].as_str(), key) {
            assert(ts[i as int] == key@);
            return true;
        }
        i = i + 1;
    }
    assert forall|j: int| 0 <= j < ts.len() implies ts[j] != key@ by {
        assert(ts[j] == s@[j]@);
    }
    false
}

/// What the walker finds of one ancestor of an indexed entry, in the order
/// it looks: its key (or the error making it), then its metadata.
#[derive(Debug)]
pub enum AncestorFacts {
    KeyError(String),
    Found { key: String, metadata: Result<FilePathMetadata, String> },
}

/// The ancestors indexed along with an entry (nearest first), and the
/// errors recorded: an ancestor already indexed before this directory was
/// walked stops the climb, since its own ancestors are indexed too.
pub open spec fn ancestors_indexed(ancestors: Seq<AncestorFacts>, already: Seq<Seq<char>>) -> (
    Seq<(Seq<char>, FilePathMetadata)>,
    Seq<String>,
)
    decreases ancestors.len(),
{
    if ancestors.len() == 0 {
        (Seq::empty(), Seq::empty())
    } else {
        let rest = ancestors_indexed(ancestors.drop_first(), already);
        match ancestors[0] {
            AncestorFacts::KeyError(e) => (rest.0, seq![e] + rest.1),
            AncestorFacts::Found { key, metadata } => if already.contains(key@) {
                (Seq::empty(), Seq::empty())
            } else {
                match metadata {
                    Err(e) => (rest.0, seq![e] + rest.1),
                    Ok(m) => (seq![(key@, m)] + rest.0, rest.1),
                }
            },
        }
    }
}

/// The entries pushed for some ancestors.
pub open spec fn pushed_entries(s: Seq<WalkingEntry>) -> Seq<(Seq<char>, FilePathMetadata)> {
    s.map_values(|e: WalkingEntry| (e.key@, e.maybe_metadata->0))
}

/// Indexes the ancestors of an accepted entry, nearest first, given the
/// keys of the paths indexed before the current directory: the entries to
/// add (with their metadata) and the errors recorded.
pub fn index_ancestors(ancestors: &Vec<AncestorFacts>, already: &Vec<WalkingEntry>) -> (r: (
    Vec<WalkingEntry>,
    Vec<String>,
))
    ensures
        (pushed_entries(r.0@), r.1@) == ancestors_indexed(ancestors@, keys(already@)),
        forall|i: int| 0 <= i < r.0@.len() ==> (#[trigger] r.0@[i]).maybe_metadata is Some,
{
    let mut found: Vec<WalkingEntry> = Vec::new();
    let mut errors: Vec<String> = Vec::new();
    let mut i: usize = 0;
    proof {
        let all = ancestors_indexed(ancestors@, keys(already@));
        assert(ancestors@.subrange(0, ancestors@.len() as int) =~= ancestors@);
        assert(pushed_entries(found@) =~= Seq::empty());
        assert(pushed_entries(found@) + all.0 =~= all.0);
        assert(errors@ + all.1 =~= all.1);
    }
    while i < ancestors.len()
        invariant
            i <= ancestors@.len(),
            forall|k: int| 0 <= k < found@.len() ==> (#[trigger] found@[k]).maybe_metadata is Some,
            ancestors_indexed(ancestors@, keys(already@)) == ({
                let rest = ancestors_indexed(
                    ancestors@.subrange(i as int, ancestors@.len() as int),
                    keys(already@),
                );
                (pushed_entries(found@) + rest.0, errors@ + rest.1)
            }),
        decreases ancestors.len() - i,
    {
        let ghost tail = ancestors@.subrange(i as int, ancestors@.len() as int);
        proof {
            assert(tail.drop_first() =~= ancestors@.subrange(i + 1, ancestors@.len() as int));
            assert(tail[0] == ancestors@[i as int]);
        }
        match &ancestors[i] {
            AncestorFacts::KeyError(e) => {
                errors.push(e.clone());
                proof {
                    let rest = ancestors_indexed(tail.drop_first(), keys(already@));
                    assert(errors@ + rest.1 =~= errors@.drop_last() + (seq![*e] + rest.1));
                }
            },
            AncestorFacts::Found { key, metadata } => {
                if key_in(already, key.as_str()) {
                    proof {
                        assert(pushed_entries(found@) + Seq::empty() =~= pushed_entries(found@));
                        assert(errors@ + Seq::empty() =~= errors@);
                    }
                    return (found, errors);
                }
                match metadata {
                    Err(e) => {
                        errors.push(e.clone());
                        proof {
                            let rest = ancestors_indexed(tail.drop_first(), keys(already@));
                            assert(errors@ + rest.1 =~= errors@.drop_last() + (seq![*e] + rest.1));
                        }
                    },
                    Ok(m) => {
                        let ghost before = found@;
                        found.push(WalkingEntry { key: key.clone(), maybe_metadata: Some(*m) });
                        proof {
                            let rest = ancestors_indexed(tail.drop_first(), keys(already@));
                            assert(pushed_entries(found@) =~= pushed_entries(before).push(
                                (key@, *m),
                            ));
                            assert(pushed_entries(found@) + rest.0 =~= pushed_entries(before) + (
                            seq![(key@, *m)] + rest.0));
                        }
                    },
                }
            },
        }
        i = i + 1;
    }
    proof {
        assert(pushed_entries(found@) + Seq::empty() =~= pushed_entries(found@));
        assert(errors@ + Seq::empty() =~= errors@);
    }
    (found, errors)
}

/// What an entry holds: its key and its metadata.
pub open spec fn entry_view(e: WalkingEntry) -> (Seq<char>, Option<FilePathMetadata>) {
    (e.key@, e.maybe_metadata)
}

/// What some entries hold, in order.
pub open spec fn entry_views(s: Seq<WalkingEntry>) -> Seq<(Seq<char>, Option<FilePathMetadata>)> {
    s.map_values(|e: WalkingEntry| entry_view(e))
}

/// The keys of some entry views, in order.
pub open spec fn view_keys(s: Seq<(Seq<char>, Option<FilePathMetadata>)>) -> Seq<Seq<char>> {
    s.map_values(|e: (Seq<char>, Option<FilePathMetadata>)| e.0)
}

/// The indexed paths after a directory's findings `found` join them: a
/// finding whose key is indexed already is dropped, the first one wins.
pub open spec fn merged(
    indexed: Seq<(Seq<char>, Option<FilePathMetadata>)>,
    found: Seq<(Seq<char>, Option<FilePathMetadata>)>,
) -> Seq<(Seq<char>, Option<FilePathMetadata>)>
    decreases found.len(),
{
    if found.len() == 0 {
        indexed
    } else {
        let m = merged(indexed, found.drop_last());
        if view_keys(m).contains(found.last().0) {
            m
        } else {
            m.push(found.last())
        }
    }
}

/// Whether no two entries share a key.
pub open spec fn unique_keys(s: Seq<(Seq<char>, Option<FilePathMetadata>)>) -> bool {
    forall|i: int, j: int| 0 <= i < j < s.len() ==> (#[trigger] s[i]).0 != (#[trigger] s[j]).0
}

/// Joins a directory's findings to the paths indexed so far.
pub fn merge_indexed(indexed: &mut Vec<WalkingEntry>, found: Vec<WalkingEntry>)
    ensures
        entry_views(final(indexed)@) == merged(entry_views(old(indexed)@), entry_views(found@)),
{
    let ghost base = entry_views(indexed@);
    let mut i: usize = 0;
    proof {
        assert(found@.subrange(0, 0) =~= Seq::<WalkingEntry>::empty());
        assert(entry_views(found@.subrange(0, 0)) =~= Seq::empty());
    }
    while i < found.len()
        invariant
            i <= found@.len(),
            entry_views(indexed@) == merged(base, entry_views(found@.subrange(0, i as int))),
        decreases found.len() - i,
    {
        proof {
            let sub = entry_views(found@.subrange(0, i + 1));
            assert(sub.drop_last() =~= entry_views(found@.subrange(0, i as int)));
            assert(sub.last() == entry_view(found@[i as int]));
            assert(keys(indexed@) =~= view_keys(entry_views(indexed@)));
        }
        if !key_in(indexed, found[i].key.as_str()) {
            let ghost before = indexed@;
            indexed.push(found[i].clone_entry());
            proof {
                assert(entry_views(indexed@) =~= entry_views(before).push(entry_view(found@[i as int])));
            }
        }
        i = i + 1;
    }
    proof {
        assert(found@.subrange(0, found@.len() as int) =~= found@);
    }
}

/// Joining findings keeps the indexed paths free of repeated keys, keeps
/// every path indexed before, and indexes every finding's key.
pub proof fn lemma_merged_unique(
    indexed: Seq<(Seq<char>, Option<FilePathMetadata>)>,
    found: Seq<(Seq<char>, Option<FilePathMetadata>)>,
)
    requires
        unique_keys(indexed),
    ensures
        unique_keys(merged(indexed, found)),
        merged(indexed, found).len() >= indexed.len(),
        forall|i: int| 0 <= i < indexed.len() ==> #[trigger] merged(indexed, found)[i] == indexed[i],
        forall|i: int| 0 <= i < found.len() ==> view_keys(merged(indexed, found)).contains(#[trigger] found[i].0),
    decreases found.len(),
{
    if found.len() > 0 {
        let m = merged(indexed, found.drop_last());
        lemma_merged_unique(indexed, found.drop_last());
        let x = found.last();
        let r = merged(indexed, found);
        if !view_keys(m).contains(x.0) {
            let n = m.push(x);
            assert(view_keys(n) =~= view_keys(m).push(x.0));
            assert forall|i: int, j: int| 0 <= i < j < n.len() implies (#[trigger] n[i]).0
                != (#[trigger] n[j]).0 by {
                if j == m.len() {
                    assert(view_keys(m)[i] == m[i].0);
                }
            }
        } else {
        }
        assert forall|i: int| 0 <= i < found.len() implies view_keys(r).contains(
            #[trigger] found[i].0,
        ) by {
            if i < found.len() - 1 {
                assert(found.drop_last()[i] == found[i]);
                assert(view_keys(m).contains(found[i].0));
                let k = choose|k: int| 0 <= k < view_keys(m).len() && view_keys(m)[k] == found[i].0;
                assert(view_keys(r)[k] == found[i].0);
            } else {
                if view_keys(m).contains(x.0) {
                } else {
                    assert(view_keys(r)[m.len() as int] == x.0);
                }
            }
        }
    }
}

impl WalkingEntry {
    /// A copy of the entry.
    pub fn clone_entry(&self) -> (r: WalkingEntry)
        ensures
            r.key@ == self.key@,
            r.maybe_metadata == self.maybe_metadata,
    {
        WalkingEntry { key: self.key.clone(), maybe_metadata: self.maybe_metadata }
    }
}

/// The walked entries that are new: those whose key the database does not
/// hold, in order, with their metadata.
pub open spec fn new_entries(indexed: Seq<WalkingEntry>, in_db: Seq<Seq<char>>) -> Seq<(Seq<char>, FilePathMetadata)>
    decreases indexed.len(),
{
    if indexed.len() == 0 {
        Seq::empty()
    } else {
        let rest = new_entries(indexed.drop_last(), in_db);
        let e = indexed.last();
        if in_db.contains(e.key@) {
            rest
        } else {
            rest.push((e.key@, e.maybe_metadata->0))
        }
    }
}

/// The entries that are not in the database yet, given the keys of the
/// paths the database holds of them. Every indexed entry carries metadata.
pub fn filter_existing_paths(indexed: Vec<WalkingEntry>, in_db: &Vec<String>) -> (r: Vec<WalkedEntry>)
    requires
        forall|i: int| 0 <= i < indexed@.len() ==> (#[trigger] indexed@[i]).maybe_metadata is Some,
    ensures
        r@.map_values(|e: WalkedEntry| (e.key@, e.metadata)) == new_entries(
            indexed@,
            in_db@.map_values(|t: String| t@),
        ),
{
    let mut r: Vec<WalkedEntry> = Vec::new();
    let mut i: usize = 0;
    while i < indexed.len()
        invariant
            i <= indexed@.len(),
            forall|k: int| 0 <= k < indexed@.len() ==> (#[trigger] indexed@[k]).maybe_metadata is Some,
            r@.map_values(|e: WalkedEntry| (e.key@, e.metadata)) == new_entries(
                indexed@.subrange(0, i as int),
                in_db@.map_values(|t: String| t@),
            ),
        decreases indexed.len() - i,
    {
        proof {
            assert(indexed@.subrange(0, i + 1).drop_last() =~= indexed@.subrange(0, i as int));
        }
        let e = &indexed[i];
        if !text_in(in_db, e.key.as_str()) {
            let m = match e.maybe_metadata {
                Some(m) => m,
                None => {
                    proof {
                        assert(indexed@[i as int].maybe_metadata is Some);
                    }
                    FilePathMetadata { inode: 0, device: 0, size_in_bytes: 0, created_at: 0, modified_at: 0 }
                },
            };
            let ghost before = r@;
            r.push(WalkedEntry { key: e.key.clone(), metadata: m });
            proof {
                assert(r@.map_values(|e: WalkedEntry| (e.key@, e.metadata)) =~= before.map_values(
                    |e: WalkedEntry| (e.key@, e.metadata),
                ).push((e.key@, m)));
            }
        }
        i = i + 1;
    }
    proof {
        assert(indexed@.subrange(0, indexed@.len() as int) =~= indexed@);
    }
    r
}

/// Whether the walk stops after a directory: once `indexed` paths reach
/// the limit.
pub fn limit_reached(indexed: usize, limit: u64) -> (r: bool)
    ensures
        r == (indexed >= limit as usize),
{
    indexed >= limit as usize
}

/// Whether to notify progress before an entry, and with which count: when
/// the directory's findings grew since the last notification.
pub fn progress_update(last_found: usize, found: usize, indexed: usize) -> (r: Option<usize>)
    requires
        indexed + found <= usize::MAX,
    ensures
        r == (if last_found != found {
            Some((indexed + found) as usize)
        } else {
            None::<usize>
        }),
{
    if last_found != found {
        Some(indexed + found)
    } else {
        None
    }
}

/// A directory waiting to be walked, with its accept-by-children state.
#[derive(Debug, Clone)]
pub struct ToWalkEntry {
    pub path: String,
    pub parent_dir_accepted_by_its_children: Option<bool>,
}

/// What a walk found: the new entries, the directories left to walk (when
/// the walk stopped at its limit) and the errors met.
#[derive(Debug)]
pub struct WalkResult {
    pub walked: Vec<WalkedEntry>,
    pub to_walk: Vec<ToWalkEntry>,
    pub errors: Vec<String>,
}

/// The first directory of a walk: its root, with no accept-by-children
/// state yet.
pub fn root_to_walk(root: String) -> (r: ToWalkEntry)
    ensures
        r.path == root,
        r.parent_dir_accepted_by_its_children is None,
{
    ToWalkEntry { path: root, parent_dir_accepted_by_its_children: None }
}

/// The directory an entry decision asks to walk next, if any.
pub fn next_to_walk(path: String, decision: &EntryDecision) -> (r: Option<ToWalkEntry>)
    ensures
        match decision.walk_into {
            Some(state) => r matches Some(e) && e.path == path && e.parent_dir_accepted_by_its_children
                == state,
            None => r is None,
        },
{
    match decision.walk_into {
        Some(state) => Some(ToWalkEntry { path, parent_dir_accepted_by_its_children: state }),
        None => None,
    }
}


/// Joining findings keeps any property that every path indexed so far and
/// every finding has: the joined paths are drawn from the two.
pub proof fn lemma_merged_keeps(
    indexed: Seq<(Seq<char>, Option<FilePathMetadata>)>,
    found: Seq<(Seq<char>, Option<FilePathMetadata>)>,
    p: spec_fn((Seq<char>, Option<FilePathMetadata>)) -> bool,
)
    requires
        forall|i: int| 0 <= i < indexed.len() ==> p(#[trigger] indexed[i]),
        forall|i: int| 0 <= i < found.len() ==> p(#[trigger] found[i]),
    ensures
        forall|i: int| 0 <= i < merged(indexed, found).len() ==> p(#[trigger] merged(indexed, found)[i]),
    decreases found.len(),
{
    if found.len() > 0 {
        let t = found.drop_last();
        assert forall|i: int| 0 <= i < t.len() implies p(#[trigger] t[i]) by {
            assert(t[i] == found[i]);
        }
        lemma_merged_keeps(indexed, t, p);
        assert(p(found[found.len() - 1]));
        let m = merged(indexed, t);
        let r = merged(indexed, found);
        assert forall|i: int| 0 <= i < r.len() implies p(#[trigger] r[i]) by {
            if i < m.len() {
                assert(r[i] == m[i]);
            } else {
                assert(r[i] == found.last());
            }
        }
    }
}

/// Every path of a walk carries its metadata: the entries the walker pushes
/// for an accepted entry and its ancestors all do, so joining them to paths
/// that all do gives paths that all do.
pub proof fn lemma_merged_has_metadata(
    indexed: Seq<(Seq<char>, Option<FilePathMetadata>)>,
    found: Seq<(Seq<char>, Option<FilePathMetadata>)>,
)
    requires
        forall|i: int| 0 <= i < indexed.len() ==> (#[trigger] indexed[i]).1 is Some,
        forall|i: int| 0 <= i < found.len() ==> (#[trigger] found[i]).1 is Some,
    ensures
        forall|i: int| 0 <= i < merged(indexed, found).len() ==> (#[trigger] merged(indexed, found)[i]).1 is Some,
{
    lemma_merged_keeps(indexed, found, |e: (Seq<char>, Option<FilePathMetadata>)| e.1 is Some);
}

/// The counts a directory's progress notifications carry, given the number
/// of paths indexed before it, the count of findings at the last
/// notification, and the count of findings before each entry, in order
/// (see [`progress_update`]).
pub open spec fn notified_counts(indexed: nat, last: nat, found: Seq<nat>) -> Seq<nat>
    decreases found.len(),
{
    if found.len() == 0 {
        Seq::empty()
    } else if found[0] != last {
        seq![indexed + found[0]] + notified_counts(indexed, found[0], found.drop_first())
    } else {
        notified_counts(indexed, last, found.drop_first())
    }
}

/// As a directory's findings only grow, the counts its progress
/// notifications carry strictly increase, each above the paths indexed
/// before it plus the findings at the last notification.
pub proof fn lemma_progress_counts_increase(indexed: nat, last: nat, found: Seq<nat>)
    requires
        forall|i: int, j: int| 0 <= i <= j < found.len() ==> found[i] <= found[j],
        forall|i: int| 0 <= i < found.len() ==> last <= #[trigger] found[i],
    ensures
        forall|i: int| 0 <= i < notified_counts(indexed, last, found).len() ==> indexed + last
            < #[trigger] notified_counts(indexed, last, found)[i],
        forall|i: int, j: int|
            0 <= i < j < notified_counts(indexed, last, found).len() ==> #[trigger] notified_counts(
                indexed,
                last,
                found,
            )[i] < #[trigger] notified_counts(indexed, last, found)[j],
    decreases found.len(),
{
    if found.len() > 0 {
        let t = found.drop_first();
        assert forall|i: int, j: int| 0 <= i <= j < t.len() implies t[i] <= t[j] by {
            assert(t[i] == found[i + 1] && t[j] == found[j + 1]);
        }
        if found[0] != last {
            assert forall|i: int| 0 <= i < t.len() implies found[0] <= #[trigger] t[i] by {
                assert(t[i] == found[i + 1]);
            }
            lemma_progress_counts_increase(indexed, found[0], t);
            let rest = notified_counts(indexed, found[0], t);
            let all = notified_counts(indexed, last, found);
            assert(all == seq![indexed + found[0]] + rest);
            assert forall|i: int| 0 <= i < all.len() implies indexed + last < #[trigger] all[i] by {
                if i > 0 {
                    assert(all[i] == rest[i - 1]);
                }
            }
            assert forall|i: int, j: int| 0 <= i < j < all.len() implies #[trigger] all[i] < #[trigger] all[j] by {
                assert(all[j] == rest[j - 1]);
                if i > 0 {
                    assert(all[i] == rest[i - 1]);
                }
            }
        } else {
            assert forall|i: int| 0 <= i < t.len() implies last <= #[trigger] t[i] by {
                assert(t[i] == found[i + 1]);
            }
            lemma_progress_counts_increase(indexed, last, t);
        }
    }
}


/// One entry of a directory being walked: its path, what the walker finds
/// of it, its location-relative key (or why it could not be made), the
/// metadata recorded for it, and what is found of its ancestors between it
/// and the root, nearest first.
#[derive(Debug)]
pub struct DirEntryInput {
    pub path: String,
    pub facts: EntryFacts,
    pub key: Result<String, String>,
    pub metadata: Result<FilePathMetadata, String>,
    pub ancestors: Vec<AncestorFacts>,
}

/// What walking one directory gives besides the paths it indexes: the
/// directories to walk next, the errors met, and the progress notifications
/// (the path about to be looked at and the count of paths found so far).
#[derive(Debug)]
pub struct DirWalk {
    pub to_walk: Vec<ToWalkEntry>,
    pub errors: Vec<String>,
    pub notifications: Vec<(String, usize)>,
}

/// Ancestor entries as entry views.
pub open spec fn ancestor_views(s: Seq<(Seq<char>, FilePathMetadata)>) -> Seq<(Seq<char>, Option<FilePathMetadata>)> {
    s.map_values(|a: (Seq<char>, FilePathMetadata)| (a.0, Some(a.1)))
}

/// The directories of some entries to walk, as (path, state) pairs.
pub open spec fn to_walk_views(s: Seq<ToWalkEntry>) -> Seq<(Seq<char>, Option<bool>)> {
    s.map_values(|t: ToWalkEntry| (t.path@, t.parent_dir_accepted_by_its_children))
}

/// What one entry adds, given the keys indexed before the directory: the
/// paths found (the entry, then the ancestors not indexed yet), the errors
/// met, and the directory to walk next, if any. An entry whose key or
/// metadata cannot be had is not indexed, nor are its ancestors.
pub open spec fn entry_contribution(parent: Option<bool>, e: DirEntryInput, already: Seq<Seq<char>>) -> (
    Seq<(Seq<char>, Option<FilePathMetadata>)>,
    Seq<String>,
    Option<(Seq<char>, Option<bool>)>,
) {
    let (errs, walk, index) = entry_decision(parent, e.facts);
    let to_walk = match walk {
        Some(st) => Some((e.path@, st)),
        None => None,
    };
    if !index {
        (Seq::empty(), errs, to_walk)
    } else {
        match e.key {
            Err(x) => (Seq::empty(), errs.push(x), to_walk),
            Ok(k) => match e.metadata {
                Err(x) => (Seq::empty(), errs.push(x), to_walk),
                Ok(m) => {
                    let (anc, aerrs) = ancestors_indexed(e.ancestors@, already);
                    (seq![(k@, Some(m))] + ancestor_views(anc), errs + aerrs, to_walk)
                },
            },
        }
    }
}

/// What walking the entries of a directory, in order, gives: the paths
/// found, the errors met and the directories to walk next.
pub open spec fn dir_walk(parent: Option<bool>, entries: Seq<DirEntryInput>, already: Seq<Seq<char>>) -> (
    Seq<(Seq<char>, Option<FilePathMetadata>)>,
    Seq<String>,
    Seq<(Seq<char>, Option<bool>)>,
)
    decreases entries.len(),
{
    if entries.len() == 0 {
        (Seq::empty(), Seq::empty(), Seq::empty())
    } else {
        let prev = dir_walk(parent, entries.drop_last(), already);
        let c = entry_contribution(parent, entries.last(), already);
        (
            prev.0 + c.0,
            prev.1 + c.1,
            match c.2 {
                Some(x) => prev.2.push(x),
                None => prev.2,
            },
        )
    }
}

/// The most paths walking some entries can find: each entry and its ancestors.
pub open spec fn candidates(entries: Seq<DirEntryInput>) -> nat
    decreases entries.len(),
{
    if entries.len() == 0 {
        0
    } else {
        candidates(entries.drop_last()) + 1 + entries.last().ancestors@.len()
    }
}

proof fn lemma_candidates_prefix(s: Seq<DirEntryInput>, i: int)
    requires
        0 <= i <= s.len(),
    ensures
        candidates(s.subrange(0, i)) <= candidates(s),
    decreases s.len() - i,
{
    if i == s.len() {
        assert(s.subrange(0, i) =~= s);
    } else {
        lemma_candidates_prefix(s, i + 1);
        assert(s.subrange(0, i + 1).drop_last() =~= s.subrange(0, i));
    }
}

proof fn lemma_ancestors_len(ancestors: Seq<AncestorFacts>, already: Seq<Seq<char>>)
    ensures
        ancestors_indexed(ancestors, already).0.len() <= ancestors.len(),
    decreases ancestors.len(),
{
    if ancestors.len() > 0 {
        lemma_ancestors_len(ancestors.drop_first(), already);
    }
}

/// The number of paths a directory's walk has found before each entry.
pub open spec fn found_before(parent: Option<bool>, entries: Seq<DirEntryInput>, already: Seq<Seq<char>>) -> Seq<nat> {
    Seq::new(entries.len(), |i: int| dir_walk(parent, entries.subrange(0, i), already).0.len())
}

/// The paths of some entries, in order.
pub open spec fn entry_paths(entries: Seq<DirEntryInput>) -> Seq<Seq<char>> {
    entries.map_values(|e: DirEntryInput| e.path@)
}

/// The notifications as (path, count) pairs.
pub open spec fn note_views(n: Seq<(String, usize)>) -> Seq<(Seq<char>, nat)> {
    n.map_values(|x: (String, usize)| (x.0@, x.1 as nat))
}

/// The progress notifications sent before entries whose counts of paths
/// found so far are `found` and whose paths are `paths`, with `base` paths
/// indexed before: one before an entry whenever the count differs from the
/// last one notified (none at first); and that last count.
pub open spec fn progress_notes(base: nat, found: Seq<nat>, paths: Seq<Seq<char>>) -> (Seq<(Seq<char>, nat)>, nat)
    decreases found.len(),
{
    if found.len() == 0 {
        (Seq::empty(), 0)
    } else {
        let (notes, last) = progress_notes(base, found.drop_last(), paths.drop_last());
        let f = found.last();
        if f != last {
            (notes.push((paths.last(), base + f)), f)
        } else {
            (notes, last)
        }
    }
}

/// A directory's walk notifies exactly where it found something: when
/// nothing was found before the first entry, the walk sends a notification
/// before an entry exactly when paths were found since the previous entry,
/// carrying that entry's path and the count of paths indexed so far.
pub proof fn lemma_progress_notes_exact(base: nat, found: Seq<nat>, paths: Seq<Seq<char>>)
    requires
        found.len() == paths.len(),
        found.len() > 0 ==> found[0] == 0,
    ensures
        progress_notes(base, found, paths).1 == (if found.len() == 0 { 0 } else { found.last() }),
        forall|i: int|
            0 < i < found.len() && found[i] != found[i - 1] ==> progress_notes(base, found, paths).0.contains(
                (paths[i], base + found[i]),
            ),
        forall|k: int|
            0 <= k < progress_notes(base, found, paths).0.len() ==> exists|i: int|
                0 < i < found.len() && found[i] != found[i - 1] && #[trigger] progress_notes(base, found, paths).0[k]
                    == (paths[i], base + found[i]),
    decreases found.len(),
{
    if found.len() > 0 {
        let ft = found.drop_last();
        let pt = paths.drop_last();
        lemma_progress_notes_exact(base, ft, pt);
        let (notes, last) = progress_notes(base, ft, pt);
        let all = progress_notes(base, found, paths).0;
        let n = found.len() - 1;
        assert forall|i: int| 0 < i < found.len() && found[i] != found[i - 1] implies all.contains(
            (paths[i], base + found[i]),
        ) by {
            if i < n {
                assert(ft[i] == found[i] && ft[i - 1] == found[i - 1] && pt[i] == paths[i]);
                assert(notes.contains((pt[i], base + ft[i])));
                let k = choose|k: int| 0 <= k < notes.len() && notes[k] == (pt[i], base + ft[i]);
                assert(all[k] == notes[k]);
            } else {
                assert(last == found[i - 1]);
                assert(all[notes.len() as int] == (paths[i], base + found[i]));
            }
        }
        assert forall|k: int| 0 <= k < all.len() implies exists|i: int|
            0 < i < found.len() && found[i] != found[i - 1] && #[trigger] all[k] == (paths[i], base + found[i]) by {
            if k < notes.len() {
                assert(all[k] == notes[k]);
                let i = choose|i: int| 0 < i < ft.len() && ft[i] != ft[i - 1] && #[trigger] notes[k] == (pt[i], base + ft[i]);
                assert(ft[i] == found[i] && ft[i - 1] == found[i - 1] && pt[i] == paths[i]);
            } else {
                assert(found[n] != last);
                if n == 0 {
                    assert(found[0] == 0);
                }
                assert(n > 0);
                assert(last == found[n - 1]);
                assert(all[k] == (paths[n], base + found[n]));
            }
        }
    }
}

/// Walking a directory's entries notifies progress before each entry (but
/// the first) before which paths were found since the previous entry, with
/// that entry's path and the paths indexed so far (`base` before the
/// directory plus those found in it). Nothing is found before the first
/// entry, so [`lemma_progress_notes_exact`] applies: these are the only
/// notifications.
pub proof fn lemma_walk_notifies_growth(parent: Option<bool>, entries: Seq<DirEntryInput>, already: Seq<Seq<char>>, base: nat)
    ensures
        found_before(parent, entries, already).len() == entries.len(),
        entries.len() > 0 ==> found_before(parent, entries, already)[0] == 0,
        forall|i: int|
            0 <= i < entries.len() ==> #[trigger] entry_paths(entries)[i] == entries[i].path@
                && found_before(parent, entries, already)[i] == dir_walk(parent, entries.subrange(0, i), already).0.len(),
        forall|i: int|
            0 < i < entries.len() && found_before(parent, entries, already)[i] != found_before(parent, entries, already)[i - 1]
                ==> progress_notes(base, found_before(parent, entries, already), entry_paths(entries)).0.contains(
                (entries[i].path@, base + dir_walk(parent, entries.subrange(0, i), already).0.len()),
            ),
{
    let found = found_before(parent, entries, already);
    let paths = entry_paths(entries);
    if entries.len() > 0 {
        assert(entries.subrange(0, 0) =~= Seq::<DirEntryInput>::empty());
        assert(found[0] == 0);
    }
    lemma_progress_notes_exact(base, found, paths);
    assert forall|i: int|
        0 < i < entries.len() && found[i] != found[i - 1] implies progress_notes(base, found, paths).0.contains(
            (entries[i].path@, base + dir_walk(parent, entries.subrange(0, i), already).0.len()),
        ) by {
        assert(paths[i] == entries[i].path@);
    }
}

/// Walks the entries of one directory, in order, with the directory's
/// accept-by-children state `parent`: the paths found join `indexed` once
/// the directory is done, and a progress notification is sent before an
/// entry whenever paths were found since the last one.
pub fn walk_single_dir(parent: Option<bool>, entries: &Vec<DirEntryInput>, indexed: &mut Vec<WalkingEntry>) -> (r: DirWalk)
    requires
        old(indexed)@.len() + candidates(entries@) <= usize::MAX,
    ensures
        entry_views(final(indexed)@) == merged(
            entry_views(old(indexed)@),
            dir_walk(parent, entries@, keys(old(indexed)@)).0,
        ),
        r.errors@ == dir_walk(parent, entries@, keys(old(indexed)@)).1,
        to_walk_views(r.to_walk@) == dir_walk(parent, entries@, keys(old(indexed)@)).2,
        forall|k: int|
            0 <= k < r.notifications@.len() ==> old(indexed)@.len() < (#[trigger] r.notifications@[k]).1
                <= old(indexed)@.len() + dir_walk(parent, entries@, keys(old(indexed)@)).0.len(),
        forall|k: int, l: int|
            0 <= k < l < r.notifications@.len() ==> (#[trigger] r.notifications@[k]).1
                < (#[trigger] r.notifications@[l]).1,
        note_views(r.notifications@) == progress_notes(
            old(indexed)@.len() as nat,
            found_before(parent, entries@, keys(old(indexed)@)),
            entry_paths(entries@),
        ).0,
{
    let ghost already = keys(indexed@);
    let ghost old_indexed = indexed@;
    let base: usize = indexed.len();
    let mut found: Vec<WalkingEntry> = Vec::new();
    let mut to_walk: Vec<ToWalkEntry> = Vec::new();
    let mut errors: Vec<String> = Vec::new();
    let mut notifications: Vec<(String, usize)> = Vec::new();
    let mut last_found: usize = 0;
    let mut i: usize = 0;
    proof {
        assert(entries@.subrange(0, 0) =~= Seq::<DirEntryInput>::empty());
        assert(entry_views(found@) =~= Seq::empty());
        assert(to_walk_views(to_walk@) =~= Seq::empty());
        assert(note_views(notifications@) =~= Seq::empty());
        assert(found_before(parent, entries@.subrange(0, 0), already) =~= Seq::empty());
    }
    while i < entries.len()
        invariant
            i <= entries@.len(),
            indexed@ == old_indexed,
            base == old_indexed.len(),
            already == keys(old_indexed),
            base + candidates(entries@) <= usize::MAX,
            entry_views(found@) == dir_walk(parent, entries@.subrange(0, i as int), already).0,
            errors@ == dir_walk(parent, entries@.subrange(0, i as int), already).1,
            to_walk_views(to_walk@) == dir_walk(parent, entries@.subrange(0, i as int), already).2,
            found@.len() <= candidates(entries@.subrange(0, i as int)),
            last_found <= found@.len(),
            forall|k: int|
                0 <= k < notifications@.len() ==> base < (#[trigger] notifications@[k]).1 <= base + last_found,
            forall|k: int, l: int|
                0 <= k < l < notifications@.len() ==> (#[trigger] notifications@[k]).1
                    < (#[trigger] notifications@[l]).1,
            (note_views(notifications@), last_found as nat) == progress_notes(
                base as nat,
                found_before(parent, entries@.subrange(0, i as int), already),
                entry_paths(entries@.subrange(0, i as int)),
            ),
        decreases entries.len() - i,
    {
        let e = &entries[i];
        proof {
            lemma_candidates_prefix(entries@, i as int);
            lemma_candidates_prefix(entries@, i + 1);
            let s = entries@.subrange(0, i + 1);
            assert(s.drop_last() =~= entries@.subrange(0, i as int));
            assert(s.last() == entries@[i as int]);
            let fb = found_before(parent, s, already);
            let fb0 = found_before(parent, entries@.subrange(0, i as int), already);
            assert forall|j: int| 0 <= j < i implies #[trigger] fb.drop_last()[j] == fb0[j] by {
                assert(s.subrange(0, j) =~= entries@.subrange(0, i as int).subrange(0, j));
            }
            assert(fb.drop_last() =~= fb0);
            assert(s.subrange(0, i as int) =~= entries@.subrange(0, i as int));
            assert(fb.last() == found@.len());
            assert(entry_paths(s).drop_last() =~= entry_paths(entries@.subrange(0, i as int)));
            assert(entry_paths(s).last() == entries@[i as int].path@);
        }
        let ghost n0 = notifications@;
        match progress_update(last_found, found.len(), base) {
            Some(c) => {
                notifications.push((e.path.clone(), c));
                last_found = found.len();
                proof {
                    assert(note_views(notifications@) =~= note_views(n0).push((e.path@, c as nat)));
                }
            },
            None => {},
        }
        let decision = walk_entry(parent, &e.facts);
        let next = next_to_walk(e.path.clone(), &decision);
        let EntryDecision { errors: mut derrs, walk_into: _, index } = decision;
        let ghost tw0 = to_walk@;
        match next {
            Some(t) => {
                to_walk.push(t);
                proof {
                    assert(to_walk_views(to_walk@) =~= to_walk_views(tw0).push((t.path@, t.parent_dir_accepted_by_its_children)));
                }
            },
            None => {},
        }
        errors.append(&mut derrs);
        if index {
            match &e.key {
                Err(x) => {
                    errors.push(x.clone());
                },
                Ok(k) => match &e.metadata {
                    Err(x) => {
                        errors.push(x.clone());
                    },
                    Ok(m) => {
                        let ghost f0 = found@;
                        found.push(WalkingEntry { key: k.clone(), maybe_metadata: Some(*m) });
                        let (mut more, mut aerrs) = index_ancestors(&e.ancestors, indexed);
                        proof {
                            lemma_ancestors_len(e.ancestors@, keys(indexed@));
                            assert(entry_views(more@) =~= ancestor_views(pushed_entries(more@)));
                        }
                        let ghost f1 = found@;
                        let ghost m0 = more@;
                        found.append(&mut more);
                        errors.append(&mut aerrs);
                        proof {
                            assert(entry_views(found@) =~= entry_views(f0) + (seq![(k@, Some(*m))] + entry_views(m0)));
                        }
                    },
                },
            }
        }
        i = i + 1;
    }
    proof {
        assert(entries@.subrange(0, entries@.len() as int) =~= entries@);
    }
    merge_indexed(indexed, found);
    DirWalk { to_walk, errors, notifications }
}


proof fn lemma_ancestors_keys(ancestors: Seq<AncestorFacts>, already: Seq<Seq<char>>, p: spec_fn(Seq<char>) -> bool)
    requires
        forall|j: int|
            0 <= j < ancestors.len() ==> (#[trigger] ancestors[j] matches AncestorFacts::Found { key, .. } ==> p(key@)),
    ensures
        forall|k: int|
            0 <= k < ancestors_indexed(ancestors, already).0.len() ==> p(
                (#[trigger] ancestors_indexed(ancestors, already).0[k]).0,
            ),
    decreases ancestors.len(),
{
    if ancestors.len() > 0 {
        let t = ancestors.drop_first();
        assert forall|j: int| 0 <= j < t.len() implies (#[trigger] t[j] matches AncestorFacts::Found { key, .. } ==> p(key@)) by {
            assert(t[j] == ancestors[j + 1]);
        }
        lemma_ancestors_keys(t, already, p);
        let rest = ancestors_indexed(t, already);
        let all = ancestors_indexed(ancestors, already);
        assert(ancestors[0] matches AncestorFacts::Found { key, .. } ==> p(key@));
        assert forall|k: int| 0 <= k < all.0.len() implies p((#[trigger] all.0[k]).0) by {
            match ancestors[0] {
                AncestorFacts::KeyError(_) => {
                    assert(all.0 == rest.0);
                },
                AncestorFacts::Found { key, metadata } => {
                    if !already.contains(key@) {
                        match metadata {
                            Err(_) => {
                                assert(all.0 == rest.0);
                            },
                            Ok(m) => {
                                if k > 0 {
                                    assert(all.0[k] == rest.0[k - 1]);
                                }
                            },
                        }
                    }
                },
            }
        }
    }
}

/// What a directory's walk finds are the keys handed in (an entry's own,
/// or one of its ancestors'), each with its metadata. So, when every key
/// handed in lies strictly below the location's root (property `p`), so
/// does every path found, and joined to paths that all carry metadata and
/// lie below the root, they give paths that all do.
pub proof fn lemma_dir_walk_found(
    parent: Option<bool>,
    entries: Seq<DirEntryInput>,
    already: Seq<Seq<char>>,
    p: spec_fn(Seq<char>) -> bool,
)
    requires
        forall|i: int| 0 <= i < entries.len() ==> ((#[trigger] entries[i]).key matches Ok(k) ==> p(k@)),
        forall|i: int, j: int|
            0 <= i < entries.len() && 0 <= j < entries[i].ancestors@.len() ==> (
            #[trigger] entries[i].ancestors@[j] matches AncestorFacts::Found { key, .. } ==> p(key@)),
    ensures
        forall|k: int|
            0 <= k < dir_walk(parent, entries, already).0.len() ==> p((#[trigger] dir_walk(parent, entries, already).0[k]).0)
                && dir_walk(parent, entries, already).0[k].1 is Some,
    decreases entries.len(),
{
    if entries.len() > 0 {
        let t = entries.drop_last();
        assert forall|i: int| 0 <= i < t.len() implies ((#[trigger] t[i]).key matches Ok(k) ==> p(k@)) by {
            assert(t[i] == entries[i]);
        }
        assert forall|i: int, j: int|
            0 <= i < t.len() && 0 <= j < t[i].ancestors@.len() implies (
            #[trigger] t[i].ancestors@[j] matches AncestorFacts::Found { key, .. } ==> p(key@)) by {
            assert(t[i] == entries[i]);
        }
        lemma_dir_walk_found(parent, t, already, p);
        let e = entries.last();
        let n = entries.len() - 1;
        assert(e == entries[n]);
        assert forall|j: int| 0 <= j < e.ancestors@.len() implies (#[trigger] e.ancestors@[j] matches AncestorFacts::Found { key, .. } ==> p(key@)) by {
            assert(entries[n].ancestors@[j] matches AncestorFacts::Found { key, .. } ==> p(key@));
        }
        lemma_ancestors_keys(e.ancestors@, already, p);
        let prev = dir_walk(parent, t, already);
        let c = entry_contribution(parent, e, already);
        let all = dir_walk(parent, entries, already);
        assert(all.0 == prev.0 + c.0);
        assert forall|k: int| 0 <= k < all.0.len() implies p((#[trigger] all.0[k]).0) && all.0[k].1 is Some by {
            if k < prev.0.len() {
                assert(all.0[k] == prev.0[k]);
            } else {
                let kk = k - prev.0.len();
                assert(all.0[k] == c.0[kk]);
                let (errs, walk, index) = entry_decision(parent, e.facts);
                if index {
                    match e.key {
                        Err(_) => {},
                        Ok(key) => {
                            assert(p(key@));
                            match e.metadata {
                                Err(_) => {},
                                Ok(m) => {
                                    let anc = ancestors_indexed(e.ancestors@, already).0;
                                    if kk > 0 {
                                        assert(c.0[kk] == ancestor_views(anc)[kk - 1]);
                                        assert(p(anc[kk - 1].0));
                                    }
                                },
                            }
                        },
                    }
                }
            }
        }
    }
}

} // verus!
