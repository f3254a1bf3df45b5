//! What the desktop app answers when asked to open file paths, list the
//! applications that open them, open them with one, or reveal items in the
//! file manager. Looking paths up, opening and listing applications are
//! done by the caller, which hands their outcomes in.
use vstd::prelude::*;

verus! {

/// The outcome of opening one file path, or of the whole request.
#[derive(Debug, Clone, PartialEq, Eq)]
pub enum OpenFilePathResult {
    NoLibrary,
    NoFile(i32),
    OpenError(i32, String),
    AllGood(i32),
    Internal(String),
}

/// The outcome of opening file path `id`: none when the database has no
/// path for it, else what opening it gave.
pub open spec fn open_result_of(id: i32, opened: Option<Result<(), String>>) -> OpenFilePathResult {
    match opened {
        None => OpenFilePathResult::NoFile(id),
        Some(Ok(())) => OpenFilePathResult::AllGood(id),
        Some(Err(e)) => OpenFilePathResult::OpenError(id, e),
    }
}

/// The results of a request to open file paths: none of the library, the
/// error looking the paths up gave, or one result per path found in the
/// database (with what opening it gave), in order.
pub open spec fn open_results(
    library_found: bool,
    lookup: Result<Seq<(i32, Option<Result<(), String>>)>, String>,
) -> Seq<OpenFilePathResult> {
    if !library_found {
        seq![OpenFilePathResult::NoLibrary]
    } else {
        match lookup {
            Err(e) => seq![OpenFilePathResult::Internal(e)],
            Ok(paths) => paths.map_values(
                |p: (i32, Option<Result<(), String>>)| open_result_of(p.0, p.1),
            ),
        }
    }
}

/// The results of a request to open file paths.
pub fn open_file_paths(
    library_found: bool,
    lookup: Result<Vec<(i32, Option<Result<(), String>>)>, String>,
) -> (r: Vec<OpenFilePathResult>)
    ensures
        r@ == open_results(
            library_found,
            match lookup {
                Ok(v) => Ok(v@),
                Err(e) => Err(e),
            },
        ),
{
    let mut r: Vec<OpenFilePathResult> = Vec::new();
    if !library_found {
        r.push(OpenFilePathResult::NoLibrary);
        proof {
            assert(r@ =~= seq![OpenFilePathResult::NoLibrary]);
        }
        return r;
    }
    let paths = match lookup {
        Err(e) => {
            r.push(OpenFilePathResult::Internal(e));
            proof {
                assert(r@ =~= seq![OpenFilePathResult::Internal(e)]);
            }
            return r;
        },
        Ok(paths) => paths,
    };
    let ghost all = paths@;
    let mut rest = paths;
    while rest.len() > 0
        invariant
            r@.len() + rest@.len() == all.len(),
            rest@ == all.subrange(r@.len() as int, all.len() as int),
            r@ == all.subrange(0, r@.len() as int).map_values(
                |p: (i32, Option<Result<(), String>>)| open_result_of(p.0, p.1),
            ),
        decreases rest.len(),
    {
        let ghost k = r@.len();
        let (id, opened) = rest.remove(0);
        let res = match opened {
            None => OpenFilePathResult::NoFile(id),
            Some(Ok(())) => OpenFilePathResult::AllGood(id),
            Some(Err(e)) => OpenFilePathResult::OpenError(id, e),
        };
        r.push(res);
        proof {
            assert(all[k as int] == (id, opened));
            assert(rest@ =~= all.subrange(r@.len() as int, all.len() as int));
            assert(r@ =~= all.subrange(0, r@.len() as int).map_values(
                |p: (i32, Option<Result<(), String>>)| open_result_of(p.0, p.1),
            ));
        }
    }
    proof {
        assert(all.subrange(0, all.len() as int) =~= all);
    }
    r
}

/// An application that can open a file path.
#[derive(Debug, Clone, PartialEq, Eq)]
pub struct OpenWithApplication {
    pub id: i32,
    pub name: String,
    pub url: String,
}

/// The applications listed for file paths: for each path (in order) that
/// the database knows and whose applications could be listed, its
/// applications (name, url), in order.
pub open spec fn apps_listed(entries: Seq<(i32, Option<Result<Seq<(String, String)>, String>>)>) -> Seq<
    OpenWithApplication,
>
    decreases entries.len(),
{
    if entries.len() == 0 {
        Seq::empty()
    } else {
        let rest = apps_listed(entries.drop_last());
        let (id, listed) = entries.last();
        match listed {
            Some(Ok(apps)) => rest + apps.map_values(
                |a: (String, String)| OpenWithApplication { id, name: a.0, url: a.1 },
            ),
            _ => rest,
        }
    }
}

/// The views of the entries handed to [`get_file_path_open_with_apps`].
pub open spec fn listing_views(entries: Seq<(i32, Option<Result<Vec<(String, String)>, String>>)>) -> Seq<
    (i32, Option<Result<Seq<(String, String)>, String>>),
> {
    entries.map_values(
        |e: (i32, Option<Result<Vec<(String, String)>, String>>)|
            (
                e.0,
                match e.1 {
                    Some(Ok(v)) => Some(Ok(v@)),
                    Some(Err(x)) => Some(Err(x)),
                    None => None,
                },
            ),
    )
}

/// The applications that can open some file paths: none when the library
/// is not found or looking the paths up failed; otherwise those listed for
/// the paths the database knows (see [`apps_listed`]).
pub open spec fn open_with_apps(
    library_found: bool,
    lookup: Result<Seq<(i32, Option<Result<Vec<(String, String)>, String>>)>, String>,
) -> Seq<OpenWithApplication> {
    if !library_found {
        Seq::empty()
    } else {
        match lookup {
            Err(_) => Seq::empty(),
            Ok(entries) => apps_listed(listing_views(entries)),
        }
    }
}

/// The applications that can open some file paths, given whether the
/// library was found and what looking its paths up gave: for each path,
/// whether the database knows it and what listing its applications gave.
pub fn get_file_path_open_with_apps(
    library_found: bool,
    lookup: Result<Vec<(i32, Option<Result<Vec<(String, String)>, String>>)>, String>,
) -> (r: Vec<OpenWithApplication>)
    ensures
        r@ == open_with_apps(
            library_found,
            match lookup {
                Ok(v) => Ok(v@),
                Err(e) => Err(e),
            },
        ),
{
    if !library_found {
        return Vec::new();
    }
    match lookup {
        Err(_) => Vec::new(),
        Ok(entries) => apps_of_entries(entries),
    }
}

fn apps_of_entries(
    entries: Vec<(i32, Option<Result<Vec<(String, String)>, String>>)>,
) -> (r: Vec<OpenWithApplication>)
    ensures
        r@ == apps_listed(
            entries@.map_values(
                |e: (i32, Option<Result<Vec<(String, String)>, String>>)|
                    (
                        e.0,
                        match e.1 {
                            Some(Ok(v)) => Some(Ok(v@)),
                            Some(Err(x)) => Some(Err(x)),
                            None => None,
                        },
                    ),
            ),
        ),
{
    let ghost views = entries@.map_values(
        |e: (i32, Option<Result<Vec<(String, String)>, String>>)|
            (
                e.0,
                match e.1 {
                    Some(Ok(v)) => Some(Ok(v@)),
                    Some(Err(x)) => Some(Err(x)),
                    None => None,
                },
            ),
    );
    let mut r: Vec<OpenWithApplication> = Vec::new();
    let total = entries.len();
    assert(views.len() == total);
    let mut rest = entries;
    let mut i: usize = 0;
    while rest.len() > 0
        invariant
            i + rest@.len() == views.len(),
            views.len() <= usize::MAX,
            forall|k: int| 0 <= k < rest@.len() ==> (#[trigger] views[i + k]) == ({
                let e = rest@[k];
                (
                    e.0,
                    match e.1 {
                        Some(Ok(v)) => Some(Ok(v@)),
                        Some(Err(x)) => Some(Err(x)),
                        None => None,
                    },
                )
            }),
            r@ == apps_listed(views.subrange(0, i as int)),
        decreases rest.len(),
    {
        proof {
            assert(views.subrange(0, i + 1).drop_last() =~= views.subrange(0, i as int));
            assert(views.subrange(0, i + 1).last() == views[i as int]);
        }
        let ghost old_rest = rest@;
        let (id, listed) = rest.remove(0);
        proof {
            assert forall|k: int| 0 <= k < rest@.len() implies (#[trigger] views[i + 1 + k]) == ({
                let e = rest@[k];
                (
                    e.0,
                    match e.1 {
                        Some(Ok(v)) => Some(Ok(v@)),
                        Some(Err(x)) => Some(Err(x)),
                        None => None,
                    },
                )
            }) by {
                assert(rest@[k] == old_rest[k + 1]);
                assert(views[i + (k + 1)] == views[i + 1 + k]);
            }
            assert(views[i + 0] == views[i as int]);
        }
        match listed {
            Some(Ok(apps)) => {
                let ghost before = r@;
                let ghost all_apps = apps@;
                let mut left = apps;
                while left.len() > 0
                    invariant
                        left@.len() <= all_apps.len(),
                        left@ == all_apps.subrange(all_apps.len() - left@.len(), all_apps.len() as int),
                        r@ == before + all_apps.subrange(0, all_apps.len() - left@.len()).map_values(
                            |a: (String, String)| OpenWithApplication { id, name: a.0, url: a.1 },
                        ),
                    decreases left.len(),
                {
                    let ghost taken = all_apps.len() - left@.len();
                    let (name, url) = left.remove(0);
                    proof {
                        assert(all_apps[taken] == (name, url));
                    }
                    r.push(OpenWithApplication { id, name, url });
                    proof {
                        assert(left@ =~= all_apps.subrange(all_apps.len() - left@.len(), all_apps.len() as int));
                        assert(r@ =~= before + all_apps.subrange(0, all_apps.len() - left@.len()).map_values(
                            |a: (String, String)| OpenWithApplication { id, name: a.0, url: a.1 },
                        ));
                    }
                }
                proof {
                    assert(all_apps.subrange(0, all_apps.len() as int) =~= all_apps);
                }
            },
            _ => {},
        }
        i = i + 1;
    }
    proof {
        assert(views.subrange(0, views.len() as int) =~= views);
    }
    r
}

/// The position of the application url chosen for file path `id` among
/// the pairs asked for: the last pair for it (later pairs replace earlier
/// ones).
pub fn url_for(pairs: &Vec<(i32, String)>, id: i32) -> (r: Option<usize>)
    ensures
        match r {
            Some(i) => i < pairs@.len() && pairs@[i as int].0 == id && forall|j: int|
                i < j < pairs@.len() ==> (#[trigger] pairs@[j]).0 != id,
            None => forall|j: int| 0 <= j < pairs@.len() ==> (#[trigger] pairs@[j]).0 != id,
        },
{
    let mut k: usize = pairs.len();
    while k > 0
        invariant
            k <= pairs@.len(),
            forall|j: int| k <= j < pairs@.len() ==> (#[trigger] pairs@[j]).0 != id,
        decreases k,
    {
        if pairs[k - 1].0 == id {
            return Some(k - 1);
        }
        k = k - 1;
    }
    None
}

/// An item to reveal in the file manager.
#[derive(Debug, Clone, Copy, PartialEq, Eq, Structural)]
pub enum RevealItem {
    Location { id: i32 },
    FilePath { id: i32 },
}

/// The file path ids and the location ids among the items, each in order.
pub open spec fn reveal_split(items: Seq<RevealItem>) -> (Seq<i32>, Seq<i32>)
    decreases items.len(),
{
    if items.len() == 0 {
        (Seq::empty(), Seq::empty())
    } else {
        let (paths, locations) = reveal_split(items.drop_last());
        match items.last() {
            RevealItem::FilePath { id } => (paths.push(id), locations),
            RevealItem::Location { id } => (paths, locations.push(id)),
        }
    }
}

/// Splits the items to reveal into file path ids and location ids.
pub fn partition_reveal_items(items: &Vec<RevealItem>) -> (r: (Vec<i32>, Vec<i32>))
    ensures
        (r.0@, r.1@) == reveal_split(items@),
{
    let mut paths: Vec<i32> = Vec::new();
    let mut locations: Vec<i32> = Vec::new();
    let mut i: usize = 0;
    while i < items.len()
        invariant
            i <= items@.len(),
            (paths@, locations@) == reveal_split(items@.subrange(0, i as int)),
        decreases items.len() - i,
    {
        proof {
            assert(items@.subrange(0, i + 1).drop_last() =~= items@.subrange(0, i as int));
        }
        match items[i] {
            RevealItem::FilePath { id } => paths.push(id),
            RevealItem::Location { id } => locations.push(id),
        }
        i = i + 1;
    }
    proof {
        assert(items@.subrange(0, items@.len() as int) =~= items@);
    }
    (paths, locations)
}

} // verus!
