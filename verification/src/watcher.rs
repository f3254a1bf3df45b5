//! The Windows file system event handler's bookkeeping. Windows reports a
//! file moved to another directory as a removal followed by a creation, so
//! a removal is held back a little: a creation of the same inode and device
//! soon after turns both into a rename. Windows also reports an update
//! right after each creation, which is ignored for a second.
//!
//! Times are milliseconds of a monotonic clock; reading inodes, metadata
//! and changing the database are I/O the caller does.
use vstd::prelude::*;
use crate::text::str_eq;

verus! {

/// Updates of a file created less than this long ago are ignored (ms).
pub const ONE_SECOND: u64 = 1000;

/// Removals and renames wait this long for their counterpart (ms).
pub const HUNDRED_MILLIS: u64 = 100;

/// A path waiting for its counterpart event.
#[derive(Debug)]
pub struct PendingPath {
    pub inode: (u64, u64),
    pub at: u64,
    pub location_id: i32,
    pub path: String,
    pub library_id: u128,
}

/// A file created recently, and when.
#[derive(Debug, Clone)]
pub struct RecentFile {
    pub path: String,
    pub at: u64,
}

/// The state of the Windows event handler.
#[derive(Debug)]
pub struct WindowsEventHandler {
    pub last_check_recently_files: u64,
    pub recently_created_files: Vec<RecentFile>,
    pub last_check_rename_and_remove: u64,
    pub rename_from_map: Vec<PendingPath>,
    pub rename_to_map: Vec<PendingPath>,
    pub to_remove_files: Vec<PendingPath>,
}

/// A file system event, with the inode and device of its path where the
/// handler needs them.
#[derive(Debug)]
pub enum WatcherEvent {
    CreateAny { path: String, inode: (u64, u64) },
    ModifyAny { path: String },
    RenameFrom { path: String, inode: (u64, u64) },
    RenameTo { path: String, inode: (u64, u64) },
    Remove { path: String, inode: (u64, u64) },
    Other,
}

/// What the caller does for an event.
#[derive(Debug, Clone)]
pub enum WatcherAction {
    Nothing,
    /// Rename the file path at `old_path` to `new_path`.
    Rename { new_path: String, old_path: String },
    /// Create the directory or file at `path`; for a file, record it with
    /// [`WindowsEventHandler::record_created`].
    CreateDirOrFile { path: String },
    /// Update the file path at `path` if it is a file.
    UpdateIfFile { path: String },
}

/// How long ago `at` was at `now`, zero for a time still to come.
pub open spec fn elapsed(now: u64, at: u64) -> int {
    if now >= at {
        now - at
    } else {
        0
    }
}

/// The position of the first entry of `s` with inode `inode`, or -1.
pub open spec fn position_of(s: Seq<PendingPath>, inode: (u64, u64)) -> int
    decreases s.len(),
{
    if s.len() == 0 {
        -1
    } else if s.last().inode == inode && position_of(s.drop_last(), inode) < 0 {
        s.len() - 1
    } else {
        position_of(s.drop_last(), inode)
    }
}

/// The entries of `s` after the one with inode `inode` (if any) left.
pub open spec fn without_inode(s: Seq<PendingPath>, inode: (u64, u64)) -> Seq<PendingPath> {
    let i = position_of(s, inode);
    if i < 0 {
        s
    } else {
        s.remove(i)
    }
}

proof fn lemma_position_of(s: Seq<PendingPath>, inode: (u64, u64), i: int)
    requires
        0 <= i <= s.len(),
        forall|j: int| 0 <= j < i ==> (#[trigger] s[j]).inode != inode,
        i < s.len() ==> s[i].inode == inode,
    ensures
        position_of(s, inode) == (if i == s.len() {
            -1
        } else {
            i
        }),
    decreases s.len(),
{
    if s.len() > 0 {
        let t = s.drop_last();
        if i < s.len() - 1 {
            lemma_position_of(t, inode, i);
        } else {
            assert forall|j: int| 0 <= j < t.len() implies (#[trigger] t[j]).inode != inode by {
                assert(t[j] == s[j]);
            }
            lemma_position_of(t, inode, t.len() as int);
        }
    }
}

/// Takes the entry with inode `inode` out of `v`, if there is one.
pub fn take_by_inode(v: &mut Vec<PendingPath>, inode: (u64, u64)) -> (r: Option<PendingPath>)
    ensures
        final(v)@ == without_inode(old(v)@, inode),
        match r {
            Some(e) => position_of(old(v)@, inode) >= 0 && e == old(v)@[position_of(old(v)@, inode)],
            None => position_of(old(v)@, inode) < 0,
        },
{
    let mut i: usize = 0;
    while i < v.len()
        invariant
            i <= v@.len(),
            v@ == old(v)@,
            forall|j: int| 0 <= j < i ==> (#[trigger] v@[j]).inode != inode,
        decreases v.len() - i,
    {
        if v[i].inode.0 == inode.0 && v[i].inode.1 == inode.1 {
            proof {
                lemma_position_of(v@, inode, i as int);
            }
            let e = v.remove(i);
            return Some(e);
        }
        i = i + 1;
    }
    proof {
        lemma_position_of(v@, inode, i as int);
    }
    None
}

/// Puts `e` in `v`, in place of the entry with the same inode, if any.
pub fn put_by_inode(v: &mut Vec<PendingPath>, e: PendingPath)
    ensures
        final(v)@ == without_inode(old(v)@, e.inode).push(e),
{
    let _ = take_by_inode(v, e.inode);
    v.push(e);
}

/// The position of the recently created file at `path`, or -1.
pub open spec fn recent_position(s: Seq<RecentFile>, path: Seq<char>) -> int
    decreases s.len(),
{
    if s.len() == 0 {
        -1
    } else if s.last().path@ == path && recent_position(s.drop_last(), path) < 0 {
        s.len() - 1
    } else {
        recent_position(s.drop_last(), path)
    }
}

proof fn lemma_recent_position(s: Seq<RecentFile>, path: Seq<char>, i: int)
    requires
        0 <= i <= s.len(),
        forall|j: int| 0 <= j < i ==> (#[trigger] s[j]).path@ != path,
        i < s.len() ==> s[i].path@ == path,
    ensures
        recent_position(s, path) == (if i == s.len() {
            -1
        } else {
            i
        }),
    decreases s.len(),
{
    if s.len() > 0 {
        let t = s.drop_last();
        if i < s.len() - 1 {
            lemma_recent_position(t, path, i);
        } else {
            assert forall|j: int| 0 <= j < t.len() implies (#[trigger] t[j]).path@ != path by {
                assert(t[j] == s[j]);
            }
            lemma_recent_position(t, path, t.len() as int);
        }
    }
}

fn find_recent(v: &Vec<RecentFile>, path: &str) -> (r: Option<usize>)
    ensures
        match r {
            Some(i) => i < v@.len() && i as int == recent_position(v@, path@),
            None => recent_position(v@, path@) < 0,
        },
{
    let mut i: usize = 0;
    while i < v.len()
        invariant
            i <= v@.len(),
            forall|j: int| 0 <= j < i ==> (#[trigger] v@[j]).path@ != path@,
        decreases v.len() - i,
    {
        if str_eq(v[i].path.as_str(), path) {
            proof {
                lemma_recent_position(v@, path@, i as int);
            }
            return Some(i);
        }
        i = i + 1;
    }
    proof {
        lemma_recent_position(v@, path@, i as int);
    }
    None
}

/// The pending entries still waiting at `now`: those younger than `limit`.
pub open spec fn still_waiting(s: Seq<PendingPath>, now: u64, limit: u64) -> Seq<PendingPath>
    decreases s.len(),
{
    if s.len() == 0 {
        Seq::empty()
    } else {
        let rest = still_waiting(s.drop_last(), now, limit);
        if elapsed(now, s.last().at) < limit {
            rest.push(s.last())
        } else {
            rest
        }
    }
}

/// The pending removals older than `limit` at `now`: they are carried out.
pub open spec fn overdue(s: Seq<PendingPath>, now: u64, limit: u64) -> Seq<PendingPath>
    decreases s.len(),
{
    if s.len() == 0 {
        Seq::empty()
    } else {
        let rest = overdue(s.drop_last(), now, limit);
        if elapsed(now, s.last().at) > limit {
            rest.push(s.last())
        } else {
            rest
        }
    }
}

/// The pending removals not yet overdue at `now`.
pub open spec fn not_overdue(s: Seq<PendingPath>, now: u64, limit: u64) -> Seq<PendingPath>
    decreases s.len(),
{
    if s.len() == 0 {
        Seq::empty()
    } else {
        let rest = not_overdue(s.drop_last(), now, limit);
        if elapsed(now, s.last().at) > limit {
            rest
        } else {
            rest.push(s.last())
        }
    }
}

/// The recently created files still recent at `now`.
pub open spec fn still_recent(s: Seq<RecentFile>, now: u64) -> Seq<RecentFile>
    decreases s.len(),
{
    if s.len() == 0 {
        Seq::empty()
    } else {
        let rest = still_recent(s.drop_last(), now);
        if elapsed(now, s.last().at) < ONE_SECOND {
            rest.push(s.last())
        } else {
            rest
        }
    }
}

fn keep_waiting(v: &mut Vec<PendingPath>, now: u64, limit: u64)
    ensures
        final(v)@ == still_waiting(old(v)@, now, limit),
{
    let mut kept: Vec<PendingPath> = Vec::new();
    let mut i: usize = 0;
    while i < v.len()
        invariant
            i <= v@.len(),
            kept@ == still_waiting(v@.subrange(0, i as int), now, limit),
        decreases v.len() - i,
    {
        proof {
            assert(v@.subrange(0, i + 1).drop_last() =~= v@.subrange(0, i as int));
        }
        if now.saturating_sub(v[i].at) < limit {
            kept.push(v[i].clone_entry());
        }
        i = i + 1;
    }
    proof {
        assert(v@.subrange(0, v@.len() as int) =~= v@);
    }
    *v = kept;
}

impl PendingPath {
    /// A copy of the entry.
    pub fn clone_entry(&self) -> (r: PendingPath)
        ensures
            r == *self,
    {
        PendingPath {
            inode: self.inode,
            at: self.at,
            location_id: self.location_id,
            path: self.path.clone(),
            library_id: self.library_id,
        }
    }
}

impl RecentFile {
    /// A copy of the entry.
    pub fn clone_entry(&self) -> (r: RecentFile)
        ensures
            r == *self,
    {
        RecentFile { path: self.path.clone(), at: self.at }
    }
}

/// Splits the pending removals at `now` into those carried out (older than
/// a hundred milliseconds) and those still waiting.
pub fn handle_removes_eviction(to_remove_files: &mut Vec<PendingPath>, now: u64) -> (r: Vec<PendingPath>)
    ensures
        r@ == overdue(old(to_remove_files)@, now, HUNDRED_MILLIS),
        final(to_remove_files)@ == not_overdue(old(to_remove_files)@, now, HUNDRED_MILLIS),
{
    let mut removed: Vec<PendingPath> = Vec::new();
    let mut kept: Vec<PendingPath> = Vec::new();
    let mut i: usize = 0;
    while i < to_remove_files.len()
        invariant
            i <= to_remove_files@.len(),
            removed@ == overdue(to_remove_files@.subrange(0, i as int), now, HUNDRED_MILLIS),
            kept@ == not_overdue(to_remove_files@.subrange(0, i as int), now, HUNDRED_MILLIS),
        decreases to_remove_files.len() - i,
    {
        proof {
            assert(to_remove_files@.subrange(0, i + 1).drop_last() =~= to_remove_files@.subrange(
                0,
                i as int,
            ));
        }
        if now.saturating_sub(to_remove_files[i].at) > HUNDRED_MILLIS {
            removed.push(to_remove_files[i].clone_entry());
        } else {
            kept.push(to_remove_files[i].clone_entry());
        }
        i = i + 1;
    }
    proof {
        assert(to_remove_files@.subrange(0, to_remove_files@.len() as int) =~= to_remove_files@);
    }
    *to_remove_files = kept;
    removed
}

/// The state of the handler, as sequences.
pub struct HandlerView {
    pub last_check_recently_files: u64,
    pub recently_created_files: Seq<RecentFile>,
    pub last_check_rename_and_remove: u64,
    pub rename_from_map: Seq<PendingPath>,
    pub rename_to_map: Seq<PendingPath>,
    pub to_remove_files: Seq<PendingPath>,
}

impl View for WindowsEventHandler {
    type V = HandlerView;

    open spec fn view(&self) -> HandlerView {
        HandlerView {
            last_check_recently_files: self.last_check_recently_files,
            recently_created_files: self.recently_created_files@,
            last_check_rename_and_remove: self.last_check_rename_and_remove,
            rename_from_map: self.rename_from_map@,
            rename_to_map: self.rename_to_map@,
            to_remove_files: self.to_remove_files@,
        }
    }
}

/// The handler's state and the caller's action after `event` at `now`,
/// before the periodic clean-up.
pub open spec fn event_effect(s: HandlerView, location_id: i32, library_id: u128, event: WatcherEvent, now: u64) -> (
    HandlerView,
    WatcherAction,
) {
    match event {
        WatcherEvent::CreateAny { path, inode } => {
            let i = position_of(s.to_remove_files, inode);
            if i >= 0 {
                (
                    HandlerView { to_remove_files: s.to_remove_files.remove(i), ..s },
                    WatcherAction::Rename { new_path: path, old_path: s.to_remove_files[i].path },
                )
            } else {
                (s, WatcherAction::CreateDirOrFile { path })
            }
        },
        WatcherEvent::ModifyAny { path } => if recent_position(s.recently_created_files, path@) >= 0 {
            (s, WatcherAction::Nothing)
        } else {
            (s, WatcherAction::UpdateIfFile { path })
        },
        WatcherEvent::RenameFrom { path, inode } => rename_effect(s, location_id, library_id, path, inode, now, false),
        WatcherEvent::RenameTo { path, inode } => rename_effect(s, location_id, library_id, path, inode, now, true),
        WatcherEvent::Remove { path, inode } => (
            HandlerView {
                to_remove_files: without_inode(s.to_remove_files, inode).push(
                    PendingPath { inode, at: now, location_id, path, library_id },
                ),
                ..s
            },
            WatcherAction::Nothing,
        ),
        WatcherEvent::Other => (s, WatcherAction::Nothing),
    }
}

/// Both halves of a rename look for their counterpart among the paths
/// renamed *to*, and wait among the paths renamed *from*. For the *from*
/// half (`to` false) the counterpart is the new path; for the *to* half the
/// event's path is the new one. No event ever adds to the paths renamed
/// *to*, so from a handler made by [`WindowsEventHandler::new`] no rename
/// comes of these halves: each waits among the paths renamed *from* until
/// the clean-up drops it. This is the watcher's behaviour as it stands.
pub open spec fn rename_effect(
    s: HandlerView,
    location_id: i32,
    library_id: u128,
    path: String,
    inode: (u64, u64),
    now: u64,
    to: bool,
) -> (HandlerView, WatcherAction) {
    let i = position_of(s.rename_to_map, inode);
    if i >= 0 {
        (
            HandlerView { rename_to_map: s.rename_to_map.remove(i), ..s },
            if to {
                WatcherAction::Rename { new_path: path, old_path: s.rename_to_map[i].path }
            } else {
                WatcherAction::Rename { new_path: s.rename_to_map[i].path, old_path: path }
            },
        )
    } else {
        (
            HandlerView {
                rename_from_map: without_inode(s.rename_from_map, inode).push(
                    PendingPath { inode, at: now, location_id, path, library_id },
                ),
                ..s
            },
            WatcherAction::Nothing,
        )
    }
}

/// The periodic clean-up at `now`: recently created files are forgotten
/// after a second, waiting renames and removals after a hundred
/// milliseconds; the result lists the removals to carry out.
pub open spec fn cleanup_effect(s: HandlerView, now: u64) -> (HandlerView, Seq<PendingPath>) {
    let s1 = if elapsed(now, s.last_check_recently_files) > ONE_SECOND {
        HandlerView {
            last_check_recently_files: now,
            recently_created_files: still_recent(s.recently_created_files, now),
            ..s
        }
    } else {
        s
    };
    if elapsed(now, s1.last_check_rename_and_remove) > HUNDRED_MILLIS {
        (
            HandlerView {
                last_check_rename_and_remove: now,
                rename_from_map: still_waiting(s1.rename_from_map, now, HUNDRED_MILLIS),
                rename_to_map: still_waiting(s1.rename_to_map, now, HUNDRED_MILLIS),
                to_remove_files: not_overdue(s1.to_remove_files, now, HUNDRED_MILLIS),
                ..s1
            },
            overdue(s1.to_remove_files, now, HUNDRED_MILLIS),
        )
    } else {
        (s1, Seq::empty())
    }
}

/// Whether the entry with inode `inode` in `s`, if any, comes from the
/// location `location_id` of library `library_id`.
pub open spec fn same_origin(s: Seq<PendingPath>, inode: (u64, u64), location_id: i32, library_id: u128) -> bool {
    position_of(s, inode) >= 0 ==> s[position_of(s, inode)].location_id == location_id
        && s[position_of(s, inode)].library_id == library_id
}

/// Whether the counterpart an event finds comes from the same location and
/// library as the event (a watcher watches one location).
pub open spec fn counterpart_matches(s: HandlerView, location_id: i32, library_id: u128, event: WatcherEvent) -> bool {
    match event {
        WatcherEvent::CreateAny { inode, .. } => same_origin(s.to_remove_files, inode, location_id, library_id),
        WatcherEvent::RenameFrom { inode, .. } => same_origin(s.rename_to_map, inode, location_id, library_id),
        WatcherEvent::RenameTo { inode, .. } => same_origin(s.rename_to_map, inode, location_id, library_id),
        _ => true,
    }
}

impl WindowsEventHandler {
    /// A handler with nothing pending, whose clocks start at `now`.
    pub fn new(now: u64) -> (r: Self)
        ensures
            r@.last_check_recently_files == now,
            r@.last_check_rename_and_remove == now,
            r@.recently_created_files.len() == 0,
            r@.rename_from_map.len() == 0,
            r@.rename_to_map.len() == 0,
            r@.to_remove_files.len() == 0,
            handler_wf(r@),
    {
        WindowsEventHandler {
            last_check_recently_files: now,
            recently_created_files: Vec::new(),
            last_check_rename_and_remove: now,
            rename_from_map: Vec::new(),
            rename_to_map: Vec::new(),
            to_remove_files: Vec::new(),
        }
    }

    /// Handles an event of location `location_id` of library `library_id` at
    /// `now`: the action for the caller. The periodic clean-up follows with
    /// [`WindowsEventHandler::cleanup`].
    pub fn handle_event(&mut self, location_id: i32, library_id: u128, event: WatcherEvent, now: u64) -> (r: WatcherAction)
        requires
            counterpart_matches(old(self)@, location_id, library_id, event),
        ensures
            (final(self)@, r) == event_effect(old(self)@, location_id, library_id, event, now),
            handler_wf(old(self)@) ==> handler_wf(final(self)@),
    {
        proof {
            if handler_wf(old(self)@) {
                lemma_event_keeps_wf(old(self)@, location_id, library_id, event, now);
            }
        }
        match event {
            WatcherEvent::CreateAny { path, inode } => {
                match take_by_inode(&mut self.to_remove_files, inode) {
                    Some(old) => WatcherAction::Rename { new_path: path, old_path: old.path },
                    None => WatcherAction::CreateDirOrFile { path },
                }
            },
            WatcherEvent::ModifyAny { path } => {
                match find_recent(&self.recently_created_files, path.as_str()) {
                    Some(_) => WatcherAction::Nothing,
                    None => WatcherAction::UpdateIfFile { path },
                }
            },
            WatcherEvent::RenameFrom { path, inode } => self.rename_half(
                location_id,
                library_id,
                path,
                inode,
                now,
                false,
            ),
            WatcherEvent::RenameTo { path, inode } => self.rename_half(
                location_id,
                library_id,
                path,
                inode,
                now,
                true,
            ),
            WatcherEvent::Remove { path, inode } => {
                put_by_inode(
                    &mut self.to_remove_files,
                    PendingPath { inode, at: now, location_id, path, library_id },
                );
                WatcherAction::Nothing
            },
            WatcherEvent::Other => WatcherAction::Nothing,
        }
    }

    fn rename_half(&mut self, location_id: i32, library_id: u128, path: String, inode: (u64, u64), now: u64, to: bool) -> (r: WatcherAction)
        ensures
            (final(self)@, r) == rename_effect(old(self)@, location_id, library_id, path, inode, now, to),
    {
        match take_by_inode(&mut self.rename_to_map, inode) {
            Some(found) => if to {
                WatcherAction::Rename { new_path: path, old_path: found.path }
            } else {
                WatcherAction::Rename { new_path: found.path, old_path: path }
            },
            None => {
                put_by_inode(
                    &mut self.rename_from_map,
                    PendingPath { inode, at: now, location_id, path, library_id },
                );
                WatcherAction::Nothing
            },
        }
    }

    /// Records a file created at `now`, whose updates are ignored for a second.
    pub fn record_created(&mut self, path: String, now: u64)
        ensures
            final(self)@ == (HandlerView {
                recently_created_files: if recent_position(old(self)@.recently_created_files, path@)
                    >= 0 {
                    old(self)@.recently_created_files.update(
                        recent_position(old(self)@.recently_created_files, path@),
                        RecentFile { at: now, ..old(self)@.recently_created_files[recent_position(old(self)@.recently_created_files, path@)] },
                    )
                } else {
                    old(self)@.recently_created_files.push(RecentFile { path, at: now })
                },
                ..old(self)@
            }),
    {
        match find_recent(&self.recently_created_files, path.as_str()) {
            Some(i) => {
                let ghost before = self.recently_created_files@;
                let mut e = self.recently_created_files.remove(i);
                e.at = now;
                self.recently_created_files.insert(i, e);
                proof {
                    assert(self.recently_created_files@ =~= before.update(
                        i as int,
                        RecentFile { at: now, ..before[i as int] },
                    ));
                }
            },
            None => {
                self.recently_created_files.push(RecentFile { path, at: now });
            },
        }
    }

    /// The periodic clean-up at `now`; the result lists the removals to
    /// carry out (their file paths are deleted).
    pub fn cleanup(&mut self, now: u64) -> (r: Vec<PendingPath>)
        ensures
            (final(self)@, r@) == cleanup_effect(old(self)@, now),
            handler_wf(old(self)@) ==> handler_wf(final(self)@),
    {
        proof {
            if handler_wf(old(self)@) {
                lemma_cleanup_keeps_wf(old(self)@, now);
            }
        }
        if now.saturating_sub(self.last_check_recently_files) > ONE_SECOND {
            self.last_check_recently_files = now;
            let mut kept: Vec<RecentFile> = Vec::new();
            let mut i: usize = 0;
            while i < self.recently_created_files.len()
                invariant
                    i <= self.recently_created_files@.len(),
                    kept@ == still_recent(self.recently_created_files@.subrange(0, i as int), now),
                decreases self.recently_created_files.len() - i,
            {
                proof {
                    assert(self.recently_created_files@.subrange(0, i + 1).drop_last()
                        =~= self.recently_created_files@.subrange(0, i as int));
                }
                if now.saturating_sub(self.recently_created_files[i].at) < ONE_SECOND {
                    kept.push(self.recently_created_files[i].clone_entry());
                }
                i = i + 1;
            }
            proof {
                assert(self.recently_created_files@.subrange(
                    0,
                    self.recently_created_files@.len() as int,
                ) =~= self.recently_created_files@);
            }
            self.recently_created_files = kept;
        }
        if now.saturating_sub(self.last_check_rename_and_remove) > HUNDRED_MILLIS {
            self.last_check_rename_and_remove = now;
            keep_waiting(&mut self.rename_from_map, now, HUNDRED_MILLIS);
            keep_waiting(&mut self.rename_to_map, now, HUNDRED_MILLIS);
            handle_removes_eviction(&mut self.to_remove_files, now)
        } else {
            Vec::new()
        }
    }
}

/// Whether no two entries share an inode and device.
pub open spec fn unique_inodes(s: Seq<PendingPath>) -> bool {
    forall|i: int, j: int| 0 <= i < j < s.len() ==> (#[trigger] s[i]).inode != (#[trigger] s[j]).inode
}

proof fn lemma_position_of_props(s: Seq<PendingPath>, inode: (u64, u64))
    ensures
        position_of(s, inode) < 0 ==> forall|j: int| 0 <= j < s.len() ==> (#[trigger] s[j]).inode != inode,
        position_of(s, inode) >= 0 ==> {
            let p = position_of(s, inode);
            &&& p < s.len()
            &&& s[p].inode == inode
            &&& forall|j: int| 0 <= j < p ==> (#[trigger] s[j]).inode != inode
        },
    decreases s.len(),
{
    if s.len() > 0 {
        let t = s.drop_last();
        lemma_position_of_props(t, inode);
        assert forall|j: int| 0 <= j < t.len() implies t[j] == s[j] by {}
    }
}

/// Putting an entry keeps the inodes unique, and leaves none with its
/// inode but the new one.
pub proof fn lemma_put_unique(s: Seq<PendingPath>, e: PendingPath)
    requires
        unique_inodes(s),
    ensures
        unique_inodes(without_inode(s, e.inode).push(e)),
        forall|j: int|
            0 <= j < without_inode(s, e.inode).len() ==> (#[trigger] without_inode(s, e.inode)[j]).inode
                != e.inode,
{
    lemma_position_of_props(s, e.inode);
    let w = without_inode(s, e.inode);
    let p = position_of(s, e.inode);
    assert forall|j: int| 0 <= j < w.len() implies (#[trigger] w[j]).inode != e.inode by {
        if p >= 0 {
            if j < p {
                assert(w[j] == s[j]);
            } else {
                assert(w[j] == s[j + 1]);
                assert(s[p].inode != s[j + 1].inode);
            }
        }
    }
    let n = w.push(e);
    assert forall|a: int, b: int| 0 <= a < b < n.len() implies (#[trigger] n[a]).inode != (
    #[trigger] n[b]).inode by {
        if b < w.len() {
            if p >= 0 {
                let sa = if a < p { a } else { a + 1 };
                let sb = if b < p { b } else { b + 1 };
                assert(w[a] == s[sa]);
                assert(w[b] == s[sb]);
            }
        } else {
            assert(n[a] == w[a]);
        }
    }
}

/// A file removed and then created again with the same inode and device,
/// with no clean-up between, is renamed from its old path to its new one,
/// and nothing is left waiting for it.
pub proof fn lemma_remove_then_create_is_rename(
    s: HandlerView,
    location_id: i32,
    library_id: u128,
    old_path: String,
    new_path: String,
    inode: (u64, u64),
    removed_at: u64,
    created_at: u64,
)
    requires
        unique_inodes(s.to_remove_files),
    ensures
        ({
            let (s1, a1) = event_effect(
                s,
                location_id,
                library_id,
                WatcherEvent::Remove { path: old_path, inode },
                removed_at,
            );
            let (s2, a2) = event_effect(
                s1,
                location_id,
                library_id,
                WatcherEvent::CreateAny { path: new_path, inode },
                created_at,
            );
            &&& a1 == WatcherAction::Nothing
            &&& a2 == WatcherAction::Rename { new_path, old_path }
            &&& s2.to_remove_files == without_inode(s.to_remove_files, inode)
            &&& unique_inodes(s2.to_remove_files)
        }),
{
    let e = PendingPath { inode, at: removed_at, location_id, path: old_path, library_id };
    lemma_put_unique(s.to_remove_files, e);
    let w = without_inode(s.to_remove_files, inode);
    let n = w.push(e);
    lemma_position_of(n, inode, w.len() as int);
    assert(n.remove(w.len() as int) =~= w);
    assert forall|a: int, b: int| 0 <= a < b < w.len() implies (#[trigger] w[a]).inode != (
    #[trigger] w[b]).inode by {
        assert(n[a] == w[a]);
        assert(n[b] == w[b]);
    }
}


/// The handler's invariant: no two waiting renames, and no two waiting
/// removals, share an inode and device (each list stands for a map keyed by
/// them).
pub open spec fn handler_wf(s: HandlerView) -> bool {
    &&& unique_inodes(s.rename_from_map)
    &&& unique_inodes(s.rename_to_map)
    &&& unique_inodes(s.to_remove_files)
}

proof fn lemma_remove_keeps_unique(s: Seq<PendingPath>, i: int)
    requires
        unique_inodes(s),
        0 <= i < s.len(),
    ensures
        unique_inodes(s.remove(i)),
{
    let n = s.remove(i);
    assert forall|a: int, b: int| 0 <= a < b < n.len() implies (#[trigger] n[a]).inode != (
    #[trigger] n[b]).inode by {
        let sa = if a < i { a } else { a + 1 };
        let sb = if b < i { b } else { b + 1 };
        assert(n[a] == s[sa]);
        assert(n[b] == s[sb]);
    }
}

proof fn lemma_still_waiting_unique(s: Seq<PendingPath>, now: u64, limit: u64)
    requires
        unique_inodes(s),
    ensures
        unique_inodes(still_waiting(s, now, limit)),
        forall|k: int|
            0 <= k < still_waiting(s, now, limit).len() ==> s.contains(
                #[trigger] still_waiting(s, now, limit)[k],
            ),
    decreases s.len(),
{
    if s.len() > 0 {
        let t = s.drop_last();
        assert forall|a: int, b: int| 0 <= a < b < t.len() implies (#[trigger] t[a]).inode != (
        #[trigger] t[b]).inode by {
            assert(t[a] == s[a] && t[b] == s[b]);
        }
        lemma_still_waiting_unique(t, now, limit);
        let r0 = still_waiting(t, now, limit);
        let r = still_waiting(s, now, limit);
        assert forall|k: int| 0 <= k < r.len() implies s.contains(#[trigger] r[k]) by {
            if k < r0.len() {
                assert(t.contains(r0[k]));
                let j = choose|j: int| 0 <= j < t.len() && t[j] == r0[k];
                assert(s[j] == r0[k]);
            } else {
                assert(s[s.len() - 1] == r[k]);
            }
        }
        if elapsed(now, s.last().at) < limit {
            assert forall|a: int, b: int| 0 <= a < b < r.len() implies (#[trigger] r[a]).inode != (
            #[trigger] r[b]).inode by {
                if b == r.len() - 1 {
                    assert(t.contains(r0[a]));
                    let j = choose|j: int| 0 <= j < t.len() && t[j] == r0[a];
                    assert(s[j] == r[a]);
                    assert(s[s.len() - 1] == r[b]);
                } else {
                    assert(r[a] == r0[a] && r[b] == r0[b]);
                }
            }
        }
    }
}

proof fn lemma_not_overdue_unique(s: Seq<PendingPath>, now: u64, limit: u64)
    requires
        unique_inodes(s),
    ensures
        unique_inodes(not_overdue(s, now, limit)),
        forall|k: int|
            0 <= k < not_overdue(s, now, limit).len() ==> s.contains(
                #[trigger] not_overdue(s, now, limit)[k],
            ),
    decreases s.len(),
{
    if s.len() > 0 {
        let t = s.drop_last();
        assert forall|a: int, b: int| 0 <= a < b < t.len() implies (#[trigger] t[a]).inode != (
        #[trigger] t[b]).inode by {
            assert(t[a] == s[a] && t[b] == s[b]);
        }
        lemma_not_overdue_unique(t, now, limit);
        let r0 = not_overdue(t, now, limit);
        let r = not_overdue(s, now, limit);
        assert forall|k: int| 0 <= k < r.len() implies s.contains(#[trigger] r[k]) by {
            if k < r0.len() {
                assert(t.contains(r0[k]));
                let j = choose|j: int| 0 <= j < t.len() && t[j] == r0[k];
                assert(s[j] == r0[k]);
            } else {
                assert(s[s.len() - 1] == r[k]);
            }
        }
        if !(elapsed(now, s.last().at) > limit) {
            assert forall|a: int, b: int| 0 <= a < b < r.len() implies (#[trigger] r[a]).inode != (
            #[trigger] r[b]).inode by {
                if b == r.len() - 1 {
                    assert(t.contains(r0[a]));
                    let j = choose|j: int| 0 <= j < t.len() && t[j] == r0[a];
                    assert(s[j] == r[a]);
                    assert(s[s.len() - 1] == r[b]);
                } else {
                    assert(r[a] == r0[a] && r[b] == r0[b]);
                }
            }
        }
    }
}

/// Every event keeps the handler's invariant.
pub proof fn lemma_event_keeps_wf(s: HandlerView, location_id: i32, library_id: u128, event: WatcherEvent, now: u64)
    requires
        handler_wf(s),
    ensures
        handler_wf(event_effect(s, location_id, library_id, event, now).0),
{
    match event {
        WatcherEvent::CreateAny { path, inode } => {
            lemma_position_of_props(s.to_remove_files, inode);
            let i = position_of(s.to_remove_files, inode);
            if i >= 0 {
                lemma_remove_keeps_unique(s.to_remove_files, i);
            }
        },
        WatcherEvent::RenameFrom { path, inode } => {
            lemma_position_of_props(s.rename_to_map, inode);
            let i = position_of(s.rename_to_map, inode);
            if i >= 0 {
                lemma_remove_keeps_unique(s.rename_to_map, i);
            } else {
                lemma_put_unique(s.rename_from_map, PendingPath { inode, at: now, location_id, path, library_id });
            }
        },
        WatcherEvent::RenameTo { path, inode } => {
            lemma_position_of_props(s.rename_to_map, inode);
            let i = position_of(s.rename_to_map, inode);
            if i >= 0 {
                lemma_remove_keeps_unique(s.rename_to_map, i);
            } else {
                lemma_put_unique(s.rename_from_map, PendingPath { inode, at: now, location_id, path, library_id });
            }
        },
        WatcherEvent::Remove { path, inode } => {
            lemma_put_unique(s.to_remove_files, PendingPath { inode, at: now, location_id, path, library_id });
        },
        _ => {},
    }
}

/// The periodic clean-up keeps the handler's invariant.
pub proof fn lemma_cleanup_keeps_wf(s: HandlerView, now: u64)
    requires
        handler_wf(s),
    ensures
        handler_wf(cleanup_effect(s, now).0),
{
    lemma_still_waiting_unique(s.rename_from_map, now, HUNDRED_MILLIS);
    lemma_still_waiting_unique(s.rename_to_map, now, HUNDRED_MILLIS);
    lemma_not_overdue_unique(s.to_remove_files, now, HUNDRED_MILLIS);
}

} // verus!
