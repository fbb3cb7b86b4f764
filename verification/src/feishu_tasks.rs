//! Feishu tasks: reading them, the bodies written for local tasks, the
//! tasklist each task goes to, and the decisions of a task sync.
use crate::caldav::{opt_str_view, opt_view};
use crate::caldav_sync::{parse_rfc3339_millis, rfc3339_millis_spec};
use crate::clock::{
    in_chrono_range, instant_millis, instant_millis_spec, local_convertible, local_reading, naive_format_result, utc_now,
    written_date_shape, Instant,
};
use crate::feishu_calendar::{
    chrono_timestamp, is_date_text, local_date_minute_to_timestamp, millis_to_local_date_string, note_spec, scalar_i64,
    scalar_str, title_spec, value_to_i64, JsonScalar,
};
use crate::feishu_json::{extract_marker, extract_marker_spec, json_member, json_quote, json_quote_spec, marker_json, marker_json_spec, push_member_key};
use crate::feishu_rules::{body_with_marker, feishu_body_spec, normalize_seconds_spec, strip_marker};
use crate::text::{i64_to_string, int_decimal, push_char, push_str, trim, trim_is_empty, trim_spec};
use vstd::prelude::*;
use vstd::string::*;

verus! {

/// A local checklist task or today-plan item as the Feishu sync reads it.
#[derive(Clone, Debug)]
pub struct LocalTask {
    pub entity_type: String,
    pub id: i64,
    pub sync_id: String,
    pub tasklist_key: String,
    pub title: String,
    pub note: Option<String>,
    pub due_date: Option<String>,
    pub completed: bool,
    pub updated_at: String,
    pub deleted_at: Option<i64>,
}

/// A Feishu task.
#[derive(Clone, Debug)]
pub struct RemoteTask {
    pub id: String,
    pub tasklist_key: String,
    pub tasklist_guid: String,
    pub title: String,
    pub note: Option<String>,
    pub due_date: Option<String>,
    pub completed: bool,
    pub updated_millis: Option<i64>,
    pub marker_entity_type: Option<String>,
    pub marker_sync_id: Option<String>,
}

/// The fields of a Feishu task object the sync reads.
#[derive(Clone, Debug)]
pub struct FeishuTaskJson {
    pub guid: JsonScalar,
    pub summary: JsonScalar,
    pub description: JsonScalar,
    pub extra: JsonScalar,
    pub due_timestamp: JsonScalar,
    pub completed_at: JsonScalar,
    pub status: JsonScalar,
    pub updated_at: JsonScalar,
}

fn scalar_text(value: &JsonScalar) -> (r: Option<String>)
    ensures
        match r {
            Some(s) => scalar_str(*value) == Some(s@),
            None => scalar_str(*value) is None,
        },
{
    match value {
        JsonScalar::Str(s) => Some(s.clone()),
        _ => None,
    }
}

/// The marker of a task: in its description, else in its `extra` text.
pub open spec fn task_marker_spec(t: FeishuTaskJson) -> Option<(Seq<char>, Seq<char>)> {
    let raw = match scalar_str(t.description) {
        Some(s) => s,
        None => Seq::<char>::empty(),
    };
    match extract_marker_spec(raw) {
        Some(m) => Some(m),
        None => match scalar_str(t.extra) {
            Some(x) => extract_marker_spec(x),
            None => None,
        },
    }
}

/// Whether a task is done: a positive completion time, or the status
/// `completed`.
pub open spec fn task_completed_spec(t: FeishuTaskJson) -> bool {
    (match scalar_i64(t.completed_at) {
        Some(v) => v,
        None => 0,
    }) > 0 || scalar_str(t.status) == Some("completed"@)
}

/// A task read from its fields (none without a string `guid`), placed in
/// the given tasklist; its due date is the local date of its due time.
pub fn parse_remote_task(t: &FeishuTaskJson, tasklist_key: &str, tasklist_guid: &str) -> (r: Option<
    RemoteTask,
>)
    ensures
        scalar_str(t.guid) is None <==> r is None,
        r matches Some(task) ==> {
            let raw = match scalar_str(t.description) {
                Some(s) => s,
                None => Seq::<char>::empty(),
            };
            &&& scalar_str(t.guid) == Some(task.id@)
            &&& task.tasklist_key@ == tasklist_key@
            &&& task.tasklist_guid@ == tasklist_guid@
            &&& task.title@ == title_spec(t.summary)
            &&& opt_view(task.note) == note_spec(raw)
            &&& task.completed == task_completed_spec(*t)
            &&& task.updated_millis == scalar_i64(t.updated_at)
            &&& (scalar_i64(t.due_timestamp) is None <==> task.due_date is None)
            // the due date is the local date of the due time (seconds or
            // milliseconds), written `YYYY-MM-DD`
            &&& (task.due_date matches Some(d) ==> is_date_text(d@) && written_date_shape(d@))
            &&& (scalar_i64(t.due_timestamp) matches Some(v) ==> (local_convertible(
                normalize_seconds_spec(v as int),
            ) ==> exists|days: int, secs: int|
                #![trigger local_reading(normalize_seconds_spec(v as int), days, secs)]
                local_reading(normalize_seconds_spec(v as int), days, secs) && naive_format_result(
                    days,
                    0,
                    "%Y-%m-%d"@,
                ) == opt_view(task.due_date)))
            &&& match task_marker_spec(*t) {
                Some(m) => opt_view(task.marker_entity_type) == Some(m.0) && opt_view(
                    task.marker_sync_id,
                ) == Some(m.1),
                None => task.marker_entity_type is None && task.marker_sync_id is None,
            }
        },
{
    let id = match scalar_text(&t.guid) {
        Some(i) => i,
        None => {
            return None;
        },
    };
    let title = match scalar_text(&t.summary) {
        Some(s) => trim(s.as_str()),
        None => String::new(),
    };
    let raw_note = match scalar_text(&t.description) {
        Some(s) => s,
        None => String::new(),
    };
    let marker = match extract_marker(raw_note.as_str()) {
        Some(m) => Some(m),
        None => match scalar_text(&t.extra) {
            Some(x) => extract_marker(x.as_str()),
            None => None,
        },
    };
    let stripped = strip_marker(raw_note.as_str());
    let note = if trim_is_empty(stripped.as_str()) {
        None
    } else {
        Some(stripped)
    };
    let due_date = match value_to_i64(&t.due_timestamp) {
        Some(v) => Some(millis_to_local_date_string(v)),
        None => None,
    };
    let completed_at = match value_to_i64(&t.completed_at) {
        Some(v) => v,
        None => 0,
    };
    let completed = completed_at > 0 || match scalar_text(&t.status) {
        Some(s) => s == String::from_str("completed"),
        None => false,
    };
    let (marker_entity_type, marker_sync_id) = match marker {
        Some((e, s)) => (Some(e), Some(s)),
        None => (None, None),
    };
    Some(
        RemoteTask {
            id,
            tasklist_key: String::from_str(tasklist_key),
            tasklist_guid: String::from_str(tasklist_guid),
            title,
            note,
            due_date,
            completed,
            updated_millis: value_to_i64(&t.updated_at),
            marker_entity_type,
            marker_sync_id,
        },
    )
}

// ---------------------------------------------------------------------------
// Tasklists
// ---------------------------------------------------------------------------

pub open spec fn lookup_spec(pairs: Seq<(String, String)>, key: Seq<char>) -> Option<Seq<char>>
    decreases pairs.len(),
{
    if pairs.len() == 0 {
        None
    } else if pairs[0].0@ == key {
        Some(pairs[0].1@)
    } else {
        lookup_spec(pairs.drop_first(), key)
    }
}

fn lookup(pairs: &Vec<(String, String)>, key: &str) -> (r: Option<String>)
    ensures
        match r {
            Some(v) => lookup_spec(pairs@, key@) == Some(v@),
            None => lookup_spec(pairs@, key@) is None,
        },
{
    let k = String::from_str(key);
    let mut i: usize = 0;
    assert(pairs@.skip(0) =~= pairs@);
    while i < pairs.len()
        invariant
            i <= pairs@.len(),
            k@ == key@,
            lookup_spec(pairs@, key@) == lookup_spec(pairs@.skip(i as int), key@),
        decreases pairs.len() - i,
    {
        assert(pairs@.skip(i as int).drop_first() =~= pairs@.skip(i + 1));
        assert(pairs@.skip(i as int)[0] == pairs@[i as int]);
        if pairs[i].0 == k {
            return Some(pairs[i].1.clone());
        }
        i += 1;
    }
    None
}

/// A rebuild uploads the live local tasks that have a title.
pub fn is_rebuild_upload(task: &LocalTask) -> (b: bool)
    ensures
        b == (task.deleted_at is None && trim_spec(task.title@).len() != 0),
{
    task.deleted_at.is_none() && !trim_is_empty(task.title.as_str())
}

/// The tasklist of a task's key, else the general one; an error when
/// neither exists.
pub fn tasklist_guid_for_key(tasklists: &Vec<(String, String)>, key: &str) -> (r: Result<
    String,
    String,
>)
    ensures
        match r {
            Ok(g) => (lookup_spec(tasklists@, key@) == Some(g@)) || (lookup_spec(tasklists@, key@)
                is None && lookup_spec(tasklists@, "general"@) == Some(g@)),
            Err(e) => lookup_spec(tasklists@, key@) is None && lookup_spec(tasklists@, "general"@)
                is None && e@ == "飞书任务清单未初始化。"@,
        },
{
    match lookup(tasklists, key) {
        Some(g) => Ok(g),
        None => match lookup(tasklists, "general") {
            Some(g) => Ok(g),
            None => Err(String::from_str("飞书任务清单未初始化。")),
        },
    }
}

/// Whether a linked remote task must move to another tasklist after a sync:
/// its tasklist is not the one the local task's key now maps to.
pub fn needs_tasklist_move(remote_tasklist_guid: &str, desired_guid: &str) -> (b: bool)
    ensures
        b == (remote_tasklist_guid@ != desired_guid@),
{
    let remote = String::from_str(remote_tasklist_guid);
    let desired = String::from_str(desired_guid);
    remote != desired
}

/// Whether a link's parent is one of the current tasklists.
pub fn link_points_to_current_tasklist(parent_id: Option<&str>, tasklists: &Vec<(String, String)>) -> (b:
    bool)
    ensures
        b == (parent_id is Some && exists|i: int|
            0 <= i < tasklists@.len() && (#[trigger] tasklists@[i]).1@ == parent_id->0@),
{
    match parent_id {
        None => false,
        Some(p) => {
            let target = String::from_str(p);
            let mut i: usize = 0;
            while i < tasklists.len()
                invariant
                    i <= tasklists@.len(),
                    target@ == p@,
                    parent_id == Some(p),
                    forall|j: int| 0 <= j < i ==> (#[trigger] tasklists@[j]).1@ != p@,
                decreases tasklists.len() - i,
            {
                if tasklists[i].1 == target {
                    assert(tasklists@[i as int].1@ == p@);
                    assert(exists|k: int| 0 <= k < tasklists@.len() && (#[trigger] tasklists@[k]).1@ == p@);
                    return true;
                }
                i += 1;
            }
            false
        },
    }
}

// ---------------------------------------------------------------------------
// Sync steps
// ---------------------------------------------------------------------------

/// The step for a local task in a Feishu task sync.
#[derive(Clone, Copy, Debug, PartialEq, Eq, Structural)]
pub enum LocalTaskStep {
    /// An untitled live task: leave it.
    Skip,
    /// Deleted locally: delete its remote task and the link.
    DeleteRemote,
    /// Reconcile the linked pair (and move it when its tasklist changed).
    SyncLinked,
    /// Its remote task is gone from a current tasklist: delete the task.
    DeleteLocal,
    /// Its remote task is in a list no longer used: write it anew.
    ReplaceRemote,
    /// Not linked: create its remote task.
    CreateRemote,
}

pub open spec fn local_task_step_spec(
    deleted: bool,
    title_blank: bool,
    linked: bool,
    linked_listed: bool,
    link_in_current_lists: bool,
) -> LocalTaskStep {
    if !deleted && title_blank {
        LocalTaskStep::Skip
    } else if linked {
        if linked_listed {
            if deleted {
                LocalTaskStep::DeleteRemote
            } else {
                LocalTaskStep::SyncLinked
            }
        } else if !deleted {
            if link_in_current_lists {
                LocalTaskStep::DeleteLocal
            } else {
                LocalTaskStep::ReplaceRemote
            }
        } else {
            LocalTaskStep::DeleteRemote
        }
    } else if !deleted {
        LocalTaskStep::CreateRemote
    } else {
        LocalTaskStep::Skip
    }
}

pub fn local_task_step(
    deleted: bool,
    title_blank: bool,
    linked: bool,
    linked_listed: bool,
    link_in_current_lists: bool,
) -> (r: LocalTaskStep)
    ensures
        r == local_task_step_spec(deleted, title_blank, linked, linked_listed, link_in_current_lists),
        deleted ==> r == LocalTaskStep::DeleteRemote || r == LocalTaskStep::Skip,
{
    if !deleted && title_blank {
        return LocalTaskStep::Skip;
    }
    if linked {
        if linked_listed {
            if deleted {
                LocalTaskStep::DeleteRemote
            } else {
                LocalTaskStep::SyncLinked
            }
        } else if !deleted {
            if link_in_current_lists {
                LocalTaskStep::DeleteLocal
            } else {
                LocalTaskStep::ReplaceRemote
            }
        } else {
            LocalTaskStep::DeleteRemote
        }
    } else if !deleted {
        LocalTaskStep::CreateRemote
    } else {
        LocalTaskStep::Skip
    }
}

/// The step for a listed remote task after the local tasks.
#[derive(Clone, Copy, Debug, PartialEq, Eq, Structural)]
pub enum RemoteTaskStep {
    /// Already handled: pruned from the today list, or linked.
    Skip,
    /// A today item of an earlier day: delete the remote task.
    DeleteStaleToday,
    /// Its marker names a local entity: link them (and reconcile when live).
    Adopt { local_id: i64, live: bool },
    /// Import it as a new local task.
    Import,
}

/// The entity types a marker may name for a task.
pub open spec fn is_task_entity(e: Seq<char>) -> bool {
    e == "checklist_task"@ || e == "today_plan_item"@
}

pub fn is_task_entity_type(e: &str) -> (b: bool)
    ensures
        b == is_task_entity(e@),
{
    let s = String::from_str(e);
    s == String::from_str("checklist_task") || s == String::from_str("today_plan_item")
}

pub open spec fn remote_task_step_spec(
    pruned: bool,
    linked: bool,
    marker_entity: Option<Seq<char>>,
    has_sync_id: bool,
    marked_local: Option<(i64, Option<i64>)>,
    in_today_list: bool,
    stale_today_item: bool,
) -> RemoteTaskStep {
    if pruned || linked {
        RemoteTaskStep::Skip
    } else {
        match (marker_entity, marked_local) {
            (Some(e), Some((id, deleted))) => if has_sync_id && is_task_entity(e) {
                if e == "today_plan_item"@ && in_today_list && stale_today_item {
                    RemoteTaskStep::DeleteStaleToday
                } else {
                    RemoteTaskStep::Adopt { local_id: id, live: deleted is None }
                }
            } else {
                RemoteTaskStep::Import
            },
            _ => RemoteTaskStep::Import,
        }
    }
}

/// Decides the step for a remote task: whether it was pruned as a stale
/// today task, whether it is linked, its marker's entity type, whether it
/// has a marker sync id, the local entity the marker names (looked up only
/// for a task entity), whether it is in the today list, and whether that
/// local today item is of an earlier day.
pub fn remote_task_step(
    pruned: bool,
    linked: bool,
    marker_entity: Option<&str>,
    has_sync_id: bool,
    marked_local: Option<(i64, Option<i64>)>,
    in_today_list: bool,
    stale_today_item: bool,
) -> (r: RemoteTaskStep)
    ensures
        r == remote_task_step_spec(
            pruned,
            linked,
            opt_str_view(marker_entity),
            has_sync_id,
            marked_local,
            in_today_list,
            stale_today_item,
        ),
        pruned || linked ==> r == RemoteTaskStep::Skip,
{
    if pruned || linked {
        return RemoteTaskStep::Skip;
    }
    match (marker_entity, marked_local) {
        (Some(e), Some((id, deleted))) => {
            if has_sync_id && is_task_entity_type(e) {
                if String::from_str(e) == String::from_str("today_plan_item") && in_today_list
                    && stale_today_item {
                    RemoteTaskStep::DeleteStaleToday
                } else {
                    RemoteTaskStep::Adopt { local_id: id, live: deleted.is_none() }
                }
            } else {
                RemoteTaskStep::Import
            }
        },
        _ => RemoteTaskStep::Import,
    }
}

/// Which side wins for a linked task.
#[derive(Clone, Copy, Debug, PartialEq, Eq, Structural)]
pub enum TaskSyncAction {
    Push,
    Pull,
    Refresh,
}

/// A linked task: the later side wins by more than a second; a remote task
/// without a change time counts as changed with the local one.
pub open spec fn task_sync_action_spec(local_updated: int, remote_updated: Option<int>) -> TaskSyncAction {
    let r = match remote_updated {
        Some(v) => v,
        None => local_updated,
    };
    if local_updated > r + 1000 {
        TaskSyncAction::Push
    } else if r > local_updated + 1000 {
        TaskSyncAction::Pull
    } else {
        TaskSyncAction::Refresh
    }
}

/// For a linked task, the later edit wins by more than a second: a local
/// edit more than 1 000 ms after the remote one is pushed, a remote edit
/// more than 1 000 ms after the local one is pulled, and only edits within a
/// second of each other (or a remote task without a change time) just
/// refresh the link.
pub proof fn lemma_task_action_rules(local_updated: int, remote_updated: Option<int>)
    ensures
        ({
            let a = task_sync_action_spec(local_updated, remote_updated);
            &&& remote_updated matches Some(r) ==> (local_updated > r + 1000 ==> a == TaskSyncAction::Push)
            &&& remote_updated matches Some(r) ==> (r > local_updated + 1000 ==> a == TaskSyncAction::Pull)
            &&& remote_updated matches Some(r) ==> (local_updated - 1000 <= r <= local_updated + 1000 ==> a
                == TaskSyncAction::Refresh)
            &&& remote_updated is None ==> a == TaskSyncAction::Refresh
        }),
{
}

/// The decision does not favour a side: with the two change times swapped,
/// pushing becomes pulling and the other way round.
pub proof fn lemma_task_action_mirror(local_updated: int, remote_updated: int)
    ensures
        task_sync_action_spec(remote_updated, Some(local_updated)) == match task_sync_action_spec(
            local_updated,
            Some(remote_updated),
        ) {
            TaskSyncAction::Push => TaskSyncAction::Pull,
            TaskSyncAction::Pull => TaskSyncAction::Push,
            TaskSyncAction::Refresh => TaskSyncAction::Refresh,
        },
{
}

pub fn task_sync_action(local_updated: i64, remote_updated: Option<i64>) -> (r: TaskSyncAction)
    ensures
        r == task_sync_action_spec(
            local_updated as int,
            match remote_updated {
                Some(v) => Some(v as int),
                None => None,
            },
        ),
        remote_updated is None ==> r == TaskSyncAction::Refresh,
{
    let l: i128 = local_updated as i128;
    let r: i128 = match remote_updated {
        Some(v) => v as i128,
        None => l,
    };
    if l > r + 1000 {
        TaskSyncAction::Push
    } else if r > l + 1000 {
        TaskSyncAction::Pull
    } else {
        TaskSyncAction::Refresh
    }
}

// ---------------------------------------------------------------------------
// Task bodies
// ---------------------------------------------------------------------------

/// `completed_at` of a task: its change time in milliseconds once done
/// (`now_millis` when that does not read), `0` otherwise.
pub open spec fn completed_at_spec(task: LocalTask, now_millis: int) -> Seq<char> {
    if task.completed {
        match rfc3339_millis_spec(task.updated_at@) {
            Ok(m) => if i64::MIN <= m <= i64::MAX {
                int_decimal(m)
            } else {
                int_decimal(now_millis)
            },
            Err(_) => int_decimal(now_millis),
        }
    } else {
        "0"@
    }
}

fn completed_at_text(task: &LocalTask, now_millis: i64) -> (r: String)
    ensures
        r@ == completed_at_spec(*task, now_millis as int),
{
    if task.completed {
        match parse_rfc3339_millis(task.updated_at.as_str()) {
            Ok(m) => i64_to_string(m),
            Err(_) => i64_to_string(now_millis),
        }
    } else {
        String::from_str("0")
    }
}

fn opt_as_str(o: &Option<String>) -> (r: Option<&str>)
    ensures
        opt_str_view(r) == opt_view(*o),
{
    match o {
        Some(s) => Some(s.as_str()),
        None => None,
    }
}

/// Whether the task has a due date (not empty).
pub open spec fn has_due(task: LocalTask) -> bool {
    match task.due_date {
        Some(d) => d@.len() > 0,
        None => false,
    }
}

/// The `due` member (and its comma) of a task with a due date; empty
/// without one.
pub open spec fn due_member_spec(task: LocalTask, due_millis: int) -> Seq<char> {
    if has_due(task) {
        json_member(
            "due"@,
            seq!['{'] + json_member("is_all_day"@, "true"@) + seq![','] + json_member(
                "timestamp"@,
                json_quote_spec(int_decimal(due_millis)),
            ) + seq!['}'],
        ) + seq![',']
    } else {
        Seq::<char>::empty()
    }
}

/// The members of a task object shared by creation and update, in key
/// order, with `due` only when the task has a due date (`due_millis`).
pub open spec fn task_members_spec(task: LocalTask, now_millis: int, due_millis: int) -> Seq<char> {
    json_member("completed_at"@, json_quote_spec(completed_at_spec(task, now_millis))) + seq![
        ',',
    ] + json_member(
        "description"@,
        json_quote_spec(feishu_body_spec(opt_view(task.note), task.entity_type@, task.sync_id@)),
    ) + seq![','] + due_member_spec(task, due_millis) + json_member(
        "extra"@,
        json_quote_spec(marker_json_spec(task.entity_type@, task.sync_id@)),
    ) + seq![','] + json_member("summary"@, json_quote_spec(task.title@))
}

fn push_due_member(out: &mut String, task: &LocalTask, due_millis: i64)
    ensures
        final(out)@ == old(out)@ + due_member_spec(*task, due_millis as int),
{
    let ghost start = out@;
    let due = match &task.due_date {
        Some(d) => !d.as_str().is_empty(),
        None => false,
    };
    if due {
        push_member_key(out, "due");
        push_char(out, '{');
        push_member_key(out, "is_all_day");
        push_str(out, "true");
        push_char(out, ',');
        push_member_key(out, "timestamp");
        push_str(out, json_quote(i64_to_string(due_millis).as_str()).as_str());
        push_char(out, '}');
        push_char(out, ',');
        proof {
            reveal_strlit("true");
        }
        assert(final(out)@ =~= start + due_member_spec(*task, due_millis as int));
    } else {
        assert(final(out)@ =~= start + due_member_spec(*task, due_millis as int));
    }
}

fn push_task_members(out: &mut String, task: &LocalTask, now_millis: i64, due_millis: i64)
    ensures
        final(out)@ == old(out)@ + task_members_spec(*task, now_millis as int, due_millis as int),
{
    let ghost start = out@;
    push_member_key(out, "completed_at");
    push_str(out, json_quote(completed_at_text(task, now_millis).as_str()).as_str());
    push_char(out, ',');
    push_member_key(out, "description");
    let body = body_with_marker(opt_as_str(&task.note), task.entity_type.as_str(), task.sync_id.as_str());
    push_str(out, json_quote(body.as_str()).as_str());
    push_char(out, ',');
    let ghost mid = out@;
    assert(mid =~= start + json_member(
        "completed_at"@,
        json_quote_spec(completed_at_spec(*task, now_millis as int)),
    ) + seq![','] + json_member(
        "description"@,
        json_quote_spec(feishu_body_spec(opt_view(task.note), task.entity_type@, task.sync_id@)),
    ) + seq![',']);
    push_due_member(out, task, due_millis);
    let ghost mid2 = out@;
    push_member_key(out, "extra");
    push_str(out, json_quote(marker_json(task.entity_type.as_str(), task.sync_id.as_str()).as_str()).as_str());
    push_char(out, ',');
    push_member_key(out, "summary");
    push_str(out, json_quote(task.title.as_str()).as_str());
    assert(out@ =~= mid2 + json_member(
        "extra"@,
        json_quote_spec(marker_json_spec(task.entity_type@, task.sync_id@)),
    ) + seq![','] + json_member("summary"@, json_quote_spec(task.title@)));
    assert(final(out)@ =~= start + task_members_spec(*task, now_millis as int, due_millis as int));
}

/// The JSON object that creates a task in a tasklist.
pub open spec fn task_body_spec(task: LocalTask, tasklist_guid: Seq<char>, now_millis: int, due_millis: int) -> Seq<char> {
    seq!['{'] + task_members_spec(task, now_millis, due_millis) + seq![','] + json_member(
        "tasklists"@,
        seq!['[', '{'] + json_member("tasklist_guid"@, json_quote_spec(tasklist_guid)) + seq![
            '}',
            ']',
        ],
    ) + seq!['}']
}

/// The creation body of a task, with the current time and its due time.
pub fn feishu_task_body_at(task: &LocalTask, tasklist_guid: &str, now_millis: i64, due_millis: i64) -> (r:
    String)
    ensures
        r@ == task_body_spec(*task, tasklist_guid@, now_millis as int, due_millis as int),
{
    let mut out = String::new();
    push_char(&mut out, '{');
    push_task_members(&mut out, task, now_millis, due_millis);
    push_char(&mut out, ',');
    push_member_key(&mut out, "tasklists");
    push_char(&mut out, '[');
    push_char(&mut out, '{');
    push_member_key(&mut out, "tasklist_guid");
    push_str(&mut out, json_quote(tasklist_guid).as_str());
    push_char(&mut out, '}');
    push_char(&mut out, ']');
    push_char(&mut out, '}');
    assert(out@ =~= task_body_spec(*task, tasklist_guid@, now_millis as int, due_millis as int));
    out
}

/// The update body of a task: the task's fields and the list of fields to
/// update (`due` only with a due date).
pub open spec fn task_patch_body_spec(task: LocalTask, now_millis: int, due_millis: int) -> Seq<char> {
    seq!['{'] + json_member("task"@, seq!['{'] + task_members_spec(task, now_millis, due_millis) + seq!['}'])
        + seq![','] + json_member(
        "update_fields"@,
        seq!['['] + json_quote_spec("summary"@) + seq![','] + json_quote_spec("description"@)
            + seq![','] + json_quote_spec("extra"@) + seq![','] + json_quote_spec(
            "completed_at"@,
        ) + (if has_due(task) {
            seq![','] + json_quote_spec("due"@)
        } else {
            Seq::<char>::empty()
        }) + seq![']'],
    ) + seq!['}']
}

#[verifier::rlimit(40)]
pub fn feishu_task_patch_body_at(task: &LocalTask, now_millis: i64, due_millis: i64) -> (r: String)
    ensures
        r@ == task_patch_body_spec(*task, now_millis as int, due_millis as int),
{
    let mut out = String::new();
    push_char(&mut out, '{');
    push_member_key(&mut out, "task");
    push_char(&mut out, '{');
    push_task_members(&mut out, task, now_millis, due_millis);
    push_char(&mut out, '}');
    push_char(&mut out, ',');
    push_member_key(&mut out, "update_fields");
    push_char(&mut out, '[');
    push_str(&mut out, json_quote("summary").as_str());
    push_char(&mut out, ',');
    push_str(&mut out, json_quote("description").as_str());
    push_char(&mut out, ',');
    push_str(&mut out, json_quote("extra").as_str());
    push_char(&mut out, ',');
    push_str(&mut out, json_quote("completed_at").as_str());
    let due = match &task.due_date {
        Some(d) => !d.as_str().is_empty(),
        None => false,
    };
    if due {
        push_char(&mut out, ',');
        push_str(&mut out, json_quote("due").as_str());
    }
    push_char(&mut out, ']');
    push_char(&mut out, '}');
    assert(out@ =~= task_patch_body_spec(*task, now_millis as int, due_millis as int));
    out
}

/// Milliseconds of the local midnight of a due date.
pub fn due_date_to_millis(date: &str) -> (r: i64)
    ensures
        exists|t: int| chrono_timestamp(t) && r == t * 1000,
{
    let t = local_date_minute_to_timestamp(date, 0);
    t * 1000
}

/// The times a task body is written with: `now` the milliseconds of an
/// instant of the clock; `due` 0 for a task without a due date, else the
/// milliseconds of a local midnight in `chrono`'s range.
pub open spec fn now_due_spec(task: LocalTask, now: int, due: int) -> bool {
    &&& exists|t: Instant| in_chrono_range(t) && now == instant_millis_spec(t)
    &&& if has_due(task) {
        exists|d: int| chrono_timestamp(d) && due == d * 1000
    } else {
        due == 0
    }
}

/// The due time written for a task: 0 without a due date, else the
/// milliseconds of a local midnight of it (see `due_date_to_millis`).
fn due_millis_of(task: &LocalTask) -> (r: i64)
    ensures
        match task.due_date {
            Some(d) => if d@.len() == 0 {
                r == 0
            } else {
                exists|t: int| chrono_timestamp(t) && r == t * 1000
            },
            None => r == 0,
        },
{
    match &task.due_date {
        Some(d) => if !d.as_str().is_empty() {
            due_date_to_millis(d.as_str())
        } else {
            0
        },
        None => 0,
    }
}

/// The current time in milliseconds: those of an instant of the clock,
/// which lies in `chrono`'s range.
fn now_millis() -> (r: i64)
    ensures
        exists|t: Instant| in_chrono_range(t) && r == instant_millis_spec(t),
{
    let now = utc_now();
    match instant_millis(now) {
        Some(m) => m,
        None => 0,
    }
}

/// The creation body of a task, now.
pub fn feishu_task_body(task: &LocalTask, tasklist_guid: &str) -> (r: String)
    ensures
        exists|now: int, due: int|
            now_due_spec(*task, now, due) && r@ == task_body_spec(*task, tasklist_guid@, now, due),
{
    let due = due_millis_of(task);
    let now = now_millis();
    assert(now_due_spec(*task, now as int, due as int));
    feishu_task_body_at(task, tasklist_guid, now, due)
}

/// The update body of a task, now.
pub fn feishu_task_patch_body(task: &LocalTask) -> (r: String)
    ensures
        exists|now: int, due: int| now_due_spec(*task, now, due) && r@ == task_patch_body_spec(*task, now, due),
{
    let due = due_millis_of(task);
    let now = now_millis();
    assert(now_due_spec(*task, now as int, due as int));
    feishu_task_patch_body_at(task, now, due)
}

} // verus!
