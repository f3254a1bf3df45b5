use spacedrive_core::walk::{
    accept_by_children, walk_single_dir, DirEntryInput, filter_existing_paths, index_ancestors, limit_reached, merge_indexed,
    next_to_walk, progress_update, reject_by_children, root_to_walk, walk_entry, AncestorFacts,
    ChildrenCheck, EntryFacts, EntryKind, FilePathMetadata, ToWalkEntry, WalkingEntry,
};
use std::collections::{BTreeMap, HashSet, VecDeque};

/// A directory tree held in memory: each path (relative to the root) and
/// whether it is a directory.
struct Tree {
    entries: BTreeMap<String, bool>,
}

impl Tree {
    fn children(&self, dir: &str) -> Vec<(String, bool)> {
        self.entries
            .iter()
            .filter(|(p, _)| parent_of(p) == dir)
            .map(|(p, d)| (p.clone(), *d))
            .collect()
    }
}

fn parent_of(path: &str) -> String {
    match path.rfind('/') {
        Some(i) => path[..i].to_string(),
        None => String::new(),
    }
}

fn prepare_location() -> Tree {
    let mut entries = BTreeMap::new();
    for (p, d) in [
        ("rust_project", true),
        ("inner", true),
        ("inner/node_project", true),
        ("photos", true),
        ("rust_project/.git", true),
        ("inner/node_project/.git", true),
        ("rust_project/Cargo.toml", false),
        ("rust_project/src", true),
        ("rust_project/src/main.rs", false),
        ("rust_project/target", true),
        ("rust_project/target/debug", true),
        ("rust_project/target/debug/main", false),
        ("inner/node_project/package.json", false),
        ("inner/node_project/src", true),
        ("inner/node_project/src/App.tsx", false),
        ("inner/node_project/node_modules", true),
        ("inner/node_project/node_modules/react", true),
        ("inner/node_project/node_modules/react/package.json", false),
        ("photos/photo1.png", false),
        ("photos/photo2.jpg", false),
        ("photos/photo3.jpeg", false),
        ("photos/text.txt", false),
    ] {
        entries.insert(p.to_string(), d);
    }
    Tree { entries }
}

/// The indexer rules of a test, each as the outcome it gives for a path.
struct Rules {
    reject_glob: Vec<fn(&str) -> bool>,
    accept_children: Vec<String>,
    accept_glob: Vec<fn(&str) -> bool>,
}

fn metadata() -> FilePathMetadata {
    FilePathMetadata { inode: 0, device: 0, size_in_bytes: 0, created_at: 0, modified_at: 0 }
}

/// Walks the tree as the indexer does, with the library deciding each step.
fn walk(tree: &Tree, rules: &Rules, limit: u64) -> HashSet<String> {
    let mut to_walk: VecDeque<ToWalkEntry> = VecDeque::new();
    to_walk.push_back(root_to_walk(String::new()));
    let mut indexed: Vec<WalkingEntry> = Vec::new();
    while let Some(entry) = to_walk.pop_front() {
        let mut inputs = Vec::new();
        for (path, is_dir) in tree.children(&entry.path) {
            let facts = EntryFacts {
                reject_glob: if rules.reject_glob.is_empty() {
                    None
                } else {
                    Some(rules.reject_glob.iter().map(|m| !m(&path)).collect())
                },
                metadata: Ok(EntryKind { is_symlink: false, is_dir }),
                inode: Ok((0, 0)),
                reject_children: None,
                accept_children: if rules.accept_children.is_empty() {
                    None
                } else {
                    Some(
                        rules
                            .accept_children
                            .iter()
                            .map(|child| {
                                Ok(tree.children(&path).iter().any(|(p, d)| {
                                    *d && p.rsplit('/').next() == Some(child.as_str())
                                }))
                            })
                            .collect(),
                    )
                },
                accept_glob: if rules.accept_glob.is_empty() {
                    None
                } else {
                    Some(rules.accept_glob.iter().map(|m| m(&path)).collect())
                },
            };
            let mut ancestors = Vec::new();
            let mut a = parent_of(&path);
            while !a.is_empty() {
                ancestors.push(AncestorFacts::Found { key: a.clone(), metadata: Ok(metadata()) });
                a = parent_of(&a);
            }
            inputs.push(DirEntryInput {
                path: path.clone(),
                facts,
                key: Ok(path),
                metadata: Ok(metadata()),
                ancestors,
            });
        }
        let dir = walk_single_dir(entry.parent_dir_accepted_by_its_children, &inputs, &mut indexed);
        assert!(dir.errors.is_empty());
        let counts: Vec<usize> = dir.notifications.iter().map(|n| n.1).collect();
        assert!(counts.windows(2).all(|w| w[0] < w[1]));
        to_walk.extend(dir.to_walk);
        if limit_reached(indexed.len(), limit) {
            break;
        }
    }
    filter_existing_paths(indexed, &Vec::new()).into_iter().map(|e| e.key).collect()
}

fn set(paths: &[&str]) -> HashSet<String> {
    paths.iter().map(|p| p.to_string()).collect()
}

fn all_paths() -> HashSet<String> {
    set(&[
        "rust_project",
        "rust_project/.git",
        "rust_project/Cargo.toml",
        "rust_project/src",
        "rust_project/src/main.rs",
        "rust_project/target",
        "rust_project/target/debug",
        "rust_project/target/debug/main",
        "inner",
        "inner/node_project",
        "inner/node_project/.git",
        "inner/node_project/package.json",
        "inner/node_project/src",
        "inner/node_project/src/App.tsx",
        "inner/node_project/node_modules",
        "inner/node_project/node_modules/react",
        "inner/node_project/node_modules/react/package.json",
        "photos",
        "photos/photo1.png",
        "photos/photo2.jpg",
        "photos/photo3.jpeg",
        "photos/text.txt",
    ])
}

fn is_photo(path: &str) -> bool {
    path.ends_with(".png") || path.ends_with(".jpg") || path.ends_with(".jpeg")
}

fn in_node_modules(path: &str) -> bool {
    path.split('/').any(|c| c == "node_modules")
}

fn in_target(path: &str) -> bool {
    path.split('/').any(|c| c == "target")
}

#[test]
fn test_walk_without_rules() {
    let tree = prepare_location();
    let rules = Rules { reject_glob: vec![], accept_children: vec![], accept_glob: vec![] };
    assert_eq!(walk(&tree, &rules, 420), all_paths());
}

#[test]
fn test_only_photos() {
    let tree = prepare_location();
    let rules = Rules { reject_glob: vec![], accept_children: vec![], accept_glob: vec![is_photo] };
    assert_eq!(
        walk(&tree, &rules, 420),
        set(&["photos", "photos/photo1.png", "photos/photo2.jpg", "photos/photo3.jpeg"])
    );
}

#[test]
fn test_git_repos() {
    let tree = prepare_location();
    let rules =
        Rules { reject_glob: vec![], accept_children: vec![".git".to_string()], accept_glob: vec![] };
    let mut expected = all_paths();
    for p in ["photos", "photos/photo1.png", "photos/photo2.jpg", "photos/photo3.jpeg", "photos/text.txt"] {
        expected.remove(p);
    }
    assert_eq!(walk(&tree, &rules, 420), expected);
}

#[test]
fn git_repos_without_deps_or_build_dirs() {
    let tree = prepare_location();
    let rules = Rules {
        reject_glob: vec![in_node_modules, in_target],
        accept_children: vec![".git".to_string()],
        accept_glob: vec![],
    };
    assert_eq!(
        walk(&tree, &rules, 420),
        set(&[
            "rust_project",
            "rust_project/.git",
            "rust_project/Cargo.toml",
            "rust_project/src",
            "rust_project/src/main.rs",
            "inner",
            "inner/node_project",
            "inner/node_project/.git",
            "inner/node_project/package.json",
            "inner/node_project/src",
            "inner/node_project/src/App.tsx",
        ])
    );
}

#[test]
fn walk_stops_at_its_limit() {
    let tree = prepare_location();
    let rules = Rules { reject_glob: vec![], accept_children: vec![], accept_glob: vec![] };
    // The root's three directories are found in the first directory walked.
    assert_eq!(walk(&tree, &rules, 1), set(&["inner", "photos", "rust_project"]));
}

fn facts_for_dir() -> EntryFacts {
    EntryFacts {
        reject_glob: None,
        metadata: Ok(EntryKind { is_symlink: false, is_dir: true }),
        inode: Ok((1, 2)),
        reject_children: None,
        accept_children: None,
        accept_glob: None,
    }
}

#[test]
fn rejected_by_glob_is_neither_indexed_nor_walked() {
    let facts = EntryFacts { reject_glob: Some(vec![true, false]), ..facts_for_dir() };
    let d = walk_entry(None, &facts);
    assert!(!d.index);
    assert!(d.walk_into.is_none());
    assert!(d.errors.is_empty());
}

#[test]
fn metadata_and_inode_errors_are_recorded() {
    let facts = EntryFacts { metadata: Err("no metadata".to_string()), ..facts_for_dir() };
    let d = walk_entry(None, &facts);
    assert_eq!(d.errors, vec!["no metadata".to_string()]);
    assert!(!d.index);
    let facts = EntryFacts { inode: Err("no inode".to_string()), ..facts_for_dir() };
    let d = walk_entry(None, &facts);
    assert_eq!(d.errors, vec!["no inode".to_string()]);
    assert!(d.walk_into.is_none());
}

#[test]
fn symlinks_are_skipped() {
    let facts = EntryFacts {
        metadata: Ok(EntryKind { is_symlink: true, is_dir: false }),
        ..facts_for_dir()
    };
    let d = walk_entry(None, &facts);
    assert!(!d.index && d.walk_into.is_none() && d.errors.is_empty());
}

#[test]
fn reject_by_children_first_failure_decides() {
    assert_eq!(reject_by_children(&vec![Ok(true), Ok(true)]), ChildrenCheck::Passed);
    assert_eq!(reject_by_children(&vec![Ok(true), Ok(false), Err("x".to_string())]), ChildrenCheck::Rejected);
    assert_eq!(
        reject_by_children(&vec![Err("boom".to_string()), Ok(false)]),
        ChildrenCheck::Failed("boom".to_string())
    );
    let facts = EntryFacts { reject_children: Some(vec![Err("boom".to_string())]), ..facts_for_dir() };
    let d = walk_entry(None, &facts);
    assert_eq!(d.errors, vec!["boom".to_string()]);
    assert!(!d.index && d.walk_into.is_none());
}

#[test]
fn accept_by_children_keeps_errors_until_accepted() {
    let rules = vec![Err("a".to_string()), Ok(false), Ok(true), Err("b".to_string())];
    let (state, errors) = accept_by_children(None, Some(&rules));
    assert_eq!(state, Some(true));
    assert_eq!(errors, vec!["a".to_string()]);
    let rules = vec![Ok(false), Err("c".to_string())];
    assert_eq!(accept_by_children(None, Some(&rules)), (Some(false), vec!["c".to_string()]));
    // A directory whose parent was accepted by its children stays accepted.
    assert_eq!(accept_by_children(Some(true), Some(&rules)).0, Some(true));
    assert_eq!(accept_by_children(Some(false), None), (Some(false), vec![]));
}

#[test]
fn ancestors_stop_at_an_indexed_one() {
    let already = vec![WalkingEntry { key: "a".to_string(), maybe_metadata: Some(metadata()) }];
    let ancestors = vec![
        AncestorFacts::Found { key: "a/b/c".to_string(), metadata: Ok(metadata()) },
        AncestorFacts::KeyError("bad key".to_string()),
        AncestorFacts::Found { key: "a/b".to_string(), metadata: Err("gone".to_string()) },
        AncestorFacts::Found { key: "a".to_string(), metadata: Ok(metadata()) },
        AncestorFacts::Found { key: "z".to_string(), metadata: Ok(metadata()) },
    ];
    let (found, errors) = index_ancestors(&ancestors, &already);
    assert_eq!(found.iter().map(|e| e.key.clone()).collect::<Vec<_>>(), vec!["a/b/c".to_string()]);
    assert_eq!(errors, vec!["bad key".to_string(), "gone".to_string()]);
}

#[test]
fn merging_keeps_the_first_of_each_key() {
    let m1 = FilePathMetadata { inode: 1, ..metadata() };
    let m2 = FilePathMetadata { inode: 2, ..metadata() };
    let mut indexed = vec![WalkingEntry { key: "x".to_string(), maybe_metadata: Some(m1) }];
    merge_indexed(
        &mut indexed,
        vec![
            WalkingEntry { key: "x".to_string(), maybe_metadata: Some(m2) },
            WalkingEntry { key: "y".to_string(), maybe_metadata: Some(m2) },
            WalkingEntry { key: "y".to_string(), maybe_metadata: Some(m1) },
        ],
    );
    assert_eq!(indexed.len(), 2);
    assert_eq!(indexed[0].maybe_metadata, Some(m1));
    assert_eq!(indexed[1].key, "y");
    assert_eq!(indexed[1].maybe_metadata, Some(m2));
}

#[test]
fn paths_in_the_database_are_not_new() {
    let indexed = vec![
        WalkingEntry { key: "a".to_string(), maybe_metadata: Some(metadata()) },
        WalkingEntry { key: "b".to_string(), maybe_metadata: Some(metadata()) },
    ];
    let new = filter_existing_paths(indexed, &vec!["a".to_string()]);
    assert_eq!(new.len(), 1);
    assert_eq!(new[0].key, "b");
}

#[test]
fn progress_is_notified_when_findings_grow() {
    assert_eq!(progress_update(0, 3, 10), Some(13));
    assert_eq!(progress_update(3, 3, 10), None);
    assert!(limit_reached(5, 5));
    assert!(!limit_reached(4, 5));
}
