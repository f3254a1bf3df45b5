//! What the tag procedures ask of the database: assigning or unassigning a
//! tag to objects, and which fields an update synchronises.
use vstd::prelude::*;

verus! {

/// Arguments of the `tags.assign` procedure.
#[derive(Debug, Clone)]
pub struct TagAssignArgs {
    pub object_ids: Vec<i32>,
    pub tag_id: i32,
    pub unassign: bool,
}

/// What assigning a tag does to the tag-on-object rows.
#[derive(Debug, Clone)]
pub enum TagAssignPlan {
    /// Delete the rows of the tag with these objects.
    Delete { tag_id: i32, object_ids: Vec<i32> },
    /// Create these (tag, object) rows.
    Create { rows: Vec<(i32, i32)> },
}

/// Plans a tag assignment: unassigning deletes the tag's rows for the
/// objects, assigning creates one row per object, in order.
pub fn plan_tag_assign(args: TagAssignArgs) -> (r: TagAssignPlan)
    ensures
        args.unassign ==> (r matches TagAssignPlan::Delete { tag_id, object_ids } && tag_id
            == args.tag_id && object_ids@ == args.object_ids@),
        !args.unassign ==> (r matches TagAssignPlan::Create { rows } && rows@
            == args.object_ids@.map_values(|o: i32| (args.tag_id, o))),
{
    if args.unassign {
        return TagAssignPlan::Delete { tag_id: args.tag_id, object_ids: args.object_ids };
    }
    let mut rows: Vec<(i32, i32)> = Vec::new();
    let mut i: usize = 0;
    while i < args.object_ids.len()
        invariant
            i <= args.object_ids@.len(),
            rows@ == args.object_ids@.subrange(0, i as int).map_values(|o: i32| (args.tag_id, o)),
        decreases args.object_ids.len() - i,
    {
        rows.push((args.tag_id, args.object_ids[i]));
        proof {
            assert(rows@ =~= args.object_ids@.subrange(0, i + 1).map_values(|o: i32| (args.tag_id, o)));
        }
        i = i + 1;
    }
    proof {
        assert(args.object_ids@.subrange(0, args.object_ids@.len() as int) =~= args.object_ids@);
    }
    TagAssignPlan::Create { rows }
}

/// The fields a tag update synchronises, in order: the name, then the
/// color, each only when given.
pub open spec fn synced_fields(name: bool, color: bool) -> Seq<Seq<char>> {
    let s = if name {
        seq!["name"@]
    } else {
        Seq::empty()
    };
    if color {
        s.push("color"@)
    } else {
        s
    }
}

/// The names of the fields a tag update synchronises.
pub fn tag_update_fields(name: &Option<String>, color: &Option<String>) -> (r: Vec<&'static str>)
    ensures
        r@.map_values(|f: &str| f@) == synced_fields(name is Some, color is Some),
{
    let mut r: Vec<&'static str> = Vec::new();
    if name.is_some() {
        r.push("name");
    }
    if color.is_some() {
        r.push("color");
    }
    proof {
        assert(r@.map_values(|f: &str| f@) =~= synced_fields(name is Some, color is Some));
    }
    r
}


/// What a tag update writes: the tag's modification time, the synchronised
/// field values (see [`synced_fields`]), and the local write, which sets the
/// name and the color to the values given (clearing a field not given).
#[derive(Debug, Clone)]
pub struct TagUpdatePlan {
    pub tag_id: i32,
    pub date_modified: i64,
    pub synced: Vec<(&'static str, String)>,
    pub name: Option<String>,
    pub color: Option<String>,
}

/// The synchronised field values of a tag update, in order.
pub open spec fn synced_values(name: Option<String>, color: Option<String>) -> Seq<(Seq<char>, Seq<char>)> {
    let s = match name {
        Some(n) => seq![("name"@, n@)],
        None => Seq::empty(),
    };
    match color {
        Some(c) => s.push(("color"@, c@)),
        None => s,
    }
}

/// Plans the update of tag `tag_id` at time `now`; `tag_found` says whether
/// the database has the tag (none when it has not: the update is refused as
/// not found).
pub fn plan_tag_update(tag_found: bool, tag_id: i32, name: Option<String>, color: Option<String>, now: i64) -> (r:
    Option<TagUpdatePlan>)
    ensures
        !tag_found ==> r is None,
        tag_found ==> (r matches Some(p) && p.tag_id == tag_id && p.date_modified == now && p.name
            == name && p.color == color && p.synced@.map_values(|f: (&'static str, String)| (f.0@, f.1@))
            == synced_values(name, color)),
{
    if !tag_found {
        return None;
    }
    let mut synced: Vec<(&'static str, String)> = Vec::new();
    match &name {
        Some(n) => synced.push(("name", n.clone())),
        None => {},
    }
    match &color {
        Some(c) => synced.push(("color", c.clone())),
        None => {},
    }
    proof {
        assert(synced@.map_values(|f: (&'static str, String)| (f.0@, f.1@)) =~= synced_values(name, color));
    }
    Some(TagUpdatePlan { tag_id, date_modified: now, synced, name, color })
}

} // verus!
