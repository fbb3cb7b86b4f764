//! The checklist: five subject categories, the board scopes tasks are
//! stored under, and the page that groups tasks by category.
use crate::feishu_json::{json_string_field, json_string_field_result};
use crate::text::{parse_i64, parse_i64_spec, str_starts_with, starts_with_spec, str_to_chars, chars_range_to_string, trim, trim_spec};
use vstd::prelude::*;
use vstd::string::*;

verus! {

/// A checklist category.
#[derive(Clone, Copy, Debug, PartialEq, Eq, Structural)]
pub enum ChecklistCategoryKey {
    Politics,
    English,
    Math,
    Major,
    General,
}

pub open spec fn key_text(key: ChecklistCategoryKey) -> Seq<char> {
    match key {
        ChecklistCategoryKey::Politics => "politics"@,
        ChecklistCategoryKey::English => "english"@,
        ChecklistCategoryKey::Math => "math"@,
        ChecklistCategoryKey::Major => "major"@,
        ChecklistCategoryKey::General => "general"@,
    }
}

pub open spec fn key_label(key: ChecklistCategoryKey) -> Seq<char> {
    match key {
        ChecklistCategoryKey::Politics => "政治"@,
        ChecklistCategoryKey::English => "英语"@,
        ChecklistCategoryKey::Math => "数学"@,
        ChecklistCategoryKey::Major => "专业课"@,
        ChecklistCategoryKey::General => "通用"@,
    }
}

impl ChecklistCategoryKey {
    /// The key's name.
    pub fn as_str(self) -> (r: String)
        ensures
            r@ == key_text(self),
    {
        match self {
            ChecklistCategoryKey::Politics => String::from_str("politics"),
            ChecklistCategoryKey::English => String::from_str("english"),
            ChecklistCategoryKey::Math => String::from_str("math"),
            ChecklistCategoryKey::Major => String::from_str("major"),
            ChecklistCategoryKey::General => String::from_str("general"),
        }
    }

    /// The key's label when no name is set.
    pub fn default_label(self) -> (r: String)
        ensures
            r@ == key_label(self),
    {
        match self {
            ChecklistCategoryKey::Politics => String::from_str("政治"),
            ChecklistCategoryKey::English => String::from_str("英语"),
            ChecklistCategoryKey::Math => String::from_str("数学"),
            ChecklistCategoryKey::Major => String::from_str("专业课"),
            ChecklistCategoryKey::General => String::from_str("通用"),
        }
    }
}

/// The categories in page order.
pub open spec fn category_order() -> Seq<ChecklistCategoryKey> {
    seq![
        ChecklistCategoryKey::Politics,
        ChecklistCategoryKey::English,
        ChecklistCategoryKey::Math,
        ChecklistCategoryKey::Major,
        ChecklistCategoryKey::General,
    ]
}

pub fn category_order_vec() -> (r: Vec<ChecklistCategoryKey>)
    ensures
        r@ == category_order(),
{
    let mut v: Vec<ChecklistCategoryKey> = Vec::new();
    v.push(ChecklistCategoryKey::Politics);
    v.push(ChecklistCategoryKey::English);
    v.push(ChecklistCategoryKey::Math);
    v.push(ChecklistCategoryKey::Major);
    v.push(ChecklistCategoryKey::General);
    assert(v@ =~= category_order());
    v
}

/// The subject of a category: subjects 1 to 4 for the four exam subjects.
pub open spec fn subject_of(key: ChecklistCategoryKey) -> Option<i64> {
    match key {
        ChecklistCategoryKey::Politics => Some(1),
        ChecklistCategoryKey::English => Some(2),
        ChecklistCategoryKey::Math => Some(3),
        ChecklistCategoryKey::Major => Some(4),
        ChecklistCategoryKey::General => None,
    }
}

pub fn category_subject_id(key: ChecklistCategoryKey) -> (r: Option<i64>)
    ensures
        r == subject_of(key),
{
    match key {
        ChecklistCategoryKey::Politics => Some(1),
        ChecklistCategoryKey::English => Some(2),
        ChecklistCategoryKey::Math => Some(3),
        ChecklistCategoryKey::Major => Some(4),
        ChecklistCategoryKey::General => None,
    }
}

pub open spec fn category_of_subject(subject_id: Option<i64>) -> Option<ChecklistCategoryKey> {
    match subject_id {
        Some(1) => Some(ChecklistCategoryKey::Politics),
        Some(2) => Some(ChecklistCategoryKey::English),
        Some(3) => Some(ChecklistCategoryKey::Math),
        Some(4) => Some(ChecklistCategoryKey::Major),
        _ => None,
    }
}

pub fn category_key_for_subject_id(subject_id: Option<i64>) -> (r: Option<ChecklistCategoryKey>)
    ensures
        r == category_of_subject(subject_id),
{
    match subject_id {
        Some(1) => Some(ChecklistCategoryKey::Politics),
        Some(2) => Some(ChecklistCategoryKey::English),
        Some(3) => Some(ChecklistCategoryKey::Math),
        Some(4) => Some(ChecklistCategoryKey::Major),
        _ => None,
    }
}

pub open spec fn scope_of(key: ChecklistCategoryKey) -> Seq<char> {
    "checklist:"@ + key_text(key)
}

/// The board scope a category's tasks are stored under.
pub fn board_scope_for_category(key: ChecklistCategoryKey) -> (r: String)
    ensures
        r@ == scope_of(key),
{
    let mut s = String::from_str("checklist:");
    crate::text::push_str(&mut s, key.as_str().as_str());
    s
}

/// The category of a board scope: the five checklist scopes (and `general`),
/// a subject scope `subject:<id>` by its subject, anything else general.
pub open spec fn category_of_scope(scope: Seq<char>) -> ChecklistCategoryKey {
    if scope == "checklist:politics"@ {
        ChecklistCategoryKey::Politics
    } else if scope == "checklist:english"@ {
        ChecklistCategoryKey::English
    } else if scope == "checklist:math"@ {
        ChecklistCategoryKey::Math
    } else if scope == "checklist:major"@ {
        ChecklistCategoryKey::Major
    } else if scope == "checklist:general"@ || scope == "general"@ {
        ChecklistCategoryKey::General
    } else if starts_with_spec(scope, "subject:"@) {
        let id = match parse_i64_spec(scope.skip(8)) {
            Some(v) => v,
            None => 0,
        };
        match category_of_subject(Some(id)) {
            Some(k) => k,
            None => ChecklistCategoryKey::General,
        }
    } else {
        ChecklistCategoryKey::General
    }
}

pub fn map_board_scope_to_category_key(board_scope: &str) -> (r: ChecklistCategoryKey)
    ensures
        r == category_of_scope(board_scope@),
{
    let s = String::from_str(board_scope);
    if s == String::from_str("checklist:politics") {
        ChecklistCategoryKey::Politics
    } else if s == String::from_str("checklist:english") {
        ChecklistCategoryKey::English
    } else if s == String::from_str("checklist:math") {
        ChecklistCategoryKey::Math
    } else if s == String::from_str("checklist:major") {
        ChecklistCategoryKey::Major
    } else if s == String::from_str("checklist:general") || s == String::from_str("general") {
        ChecklistCategoryKey::General
    } else if str_starts_with(board_scope, "subject:") {
        proof {
            reveal_strlit("subject:");
        }
        let chars = str_to_chars(board_scope);
        let rest = chars_range_to_string(chars.as_slice(), 8, chars.len());
        assert(rest@ =~= board_scope@.skip(8));
        let id = match parse_i64(rest.as_str()) {
            Some(v) => v,
            None => 0,
        };
        match category_key_for_subject_id(Some(id)) {
            Some(k) => k,
            None => ChecklistCategoryKey::General,
        }
    } else {
        ChecklistCategoryKey::General
    }
}

/// The category named by a key (surrounding white space ignored).
pub open spec fn parse_category_spec(value: Seq<char>) -> Option<ChecklistCategoryKey> {
    let t = trim_spec(value);
    if t == "politics"@ {
        Some(ChecklistCategoryKey::Politics)
    } else if t == "english"@ {
        Some(ChecklistCategoryKey::English)
    } else if t == "math"@ {
        Some(ChecklistCategoryKey::Math)
    } else if t == "major"@ {
        Some(ChecklistCategoryKey::Major)
    } else if t == "general"@ {
        Some(ChecklistCategoryKey::General)
    } else {
        None
    }
}

pub fn parse_category_key(value: &str) -> (r: Result<ChecklistCategoryKey, String>)
    ensures
        match r {
            Ok(k) => parse_category_spec(value@) == Some(k),
            Err(e) => parse_category_spec(value@) is None && e@ == "未知的清单分类"@,
        },
{
    let t = trim(value);
    if t == String::from_str("politics") {
        Ok(ChecklistCategoryKey::Politics)
    } else if t == String::from_str("english") {
        Ok(ChecklistCategoryKey::English)
    } else if t == String::from_str("math") {
        Ok(ChecklistCategoryKey::Math)
    } else if t == String::from_str("major") {
        Ok(ChecklistCategoryKey::Major)
    } else if t == String::from_str("general") {
        Ok(ChecklistCategoryKey::General)
    } else {
        Err(String::from_str("未知的清单分类"))
    }
}

/// A category's key names it back; its board scope maps back to it; a
/// subject category's subject maps back to it.
pub proof fn lemma_category_roundtrips(key: ChecklistCategoryKey)
    ensures
        parse_category_spec(key_text(key)) == Some(key),
        category_of_scope(scope_of(key)) == key,
        subject_of(key) matches Some(id) ==> category_of_subject(Some(id)) == Some(key),
{
    reveal_strlit("politics");
    reveal_strlit("english");
    reveal_strlit("math");
    reveal_strlit("major");
    reveal_strlit("general");
    reveal_strlit("checklist:");
    reveal_strlit("checklist:politics");
    reveal_strlit("checklist:english");
    reveal_strlit("checklist:math");
    reveal_strlit("checklist:major");
    reveal_strlit("checklist:general");
    let t = key_text(key);
    assert(trim_spec(t) == t) by {
        crate::text::lemma_trim_no_ws(t);
    }
    match key {
        ChecklistCategoryKey::Politics => assert(scope_of(key) =~= "checklist:politics"@),
        ChecklistCategoryKey::English => assert(scope_of(key) =~= "checklist:english"@),
        ChecklistCategoryKey::Math => assert(scope_of(key) =~= "checklist:math"@),
        ChecklistCategoryKey::Major => assert(scope_of(key) =~= "checklist:major"@),
        ChecklistCategoryKey::General => assert(scope_of(key) =~= "checklist:general"@),
    }
    assert("english"@[0] != "general"@[0]);
    assert("checklist:english"@[10] != "checklist:general"@[10]);
    assert(scope_of(key).len() != "general"@.len());
}

/// Trimmed text, none when blank.
pub open spec fn normalize_optional_spec(value: Option<Seq<char>>) -> Option<Seq<char>> {
    match value {
        Some(v) => if trim_spec(v).len() == 0 {
            None
        } else {
            Some(trim_spec(v))
        },
        None => None,
    }
}

pub fn normalize_optional_string(value: Option<String>) -> (r: Option<String>)
    ensures
        crate::caldav::opt_view(r) == normalize_optional_spec(crate::caldav::opt_view(value)),
{
    match value {
        Some(v) => {
            let t = trim(v.as_str());
            if t.as_str().is_empty() {
                None
            } else {
                Some(t)
            }
        },
        None => None,
    }
}

} // verus!

verus! {

/// A checklist task as shown.
#[derive(Clone, Debug)]
pub struct ChecklistTask {
    pub id: i64,
    pub category_key: String,
    pub subject_id: Option<i64>,
    pub title: String,
    pub note: Option<String>,
    pub due_date: Option<String>,
    pub sort_order: i64,
    pub completed: bool,
    pub created_at: String,
    pub updated_at: String,
}

/// A today-plan item.
#[derive(Clone, Debug)]
pub struct TodayPlanItem {
    pub id: i64,
    pub today_date: String,
    pub source_task_id: Option<i64>,
    pub subject_id: Option<i64>,
    pub title: String,
    pub note: Option<String>,
    pub due_date: Option<String>,
    pub sort_order: i64,
    pub completed: bool,
    pub synced_source_completion: bool,
    pub created_at: String,
    pub updated_at: String,
}

/// A category of the checklist page.
#[derive(Clone, Debug)]
pub struct ChecklistCategory {
    pub key: String,
    pub title: String,
    pub pending_tasks: Vec<ChecklistTask>,
    pub completed_tasks: Vec<ChecklistTask>,
    pub highlighted: bool,
}

/// The checklist page.
#[derive(Clone, Debug)]
pub struct ChecklistPageData {
    pub today_date: String,
    pub active_category_key: String,
    pub highlighted_subject_id: Option<i64>,
    pub categories: Vec<ChecklistCategory>,
    pub today_items: Vec<TodayPlanItem>,
}

/// A new checklist task from the interface.
#[derive(Clone, Debug)]
pub struct ChecklistTaskDraft {
    pub category_key: String,
    pub title: String,
    pub note: Option<String>,
    pub due_date: Option<String>,
}

/// A new today-plan item from the interface.
#[derive(Clone, Debug)]
pub struct TodayPlanItemDraft {
    pub title: String,
    pub note: Option<String>,
    pub due_date: Option<String>,
    pub subject_id: Option<i64>,
}

/// A stored checklist task.
#[derive(Clone, Debug)]
pub struct TaskRecord {
    pub id: i64,
    pub board_scope: String,
    pub subject_id: Option<i64>,
    pub title: String,
    pub note: Option<String>,
    pub due_date: Option<String>,
    pub sort_order: i64,
    pub completed: bool,
    pub created_at: String,
    pub updated_at: String,
}

/// The content of a shown task.
pub struct TaskView {
    pub id: i64,
    pub category_key: Seq<char>,
    pub subject_id: Option<i64>,
    pub title: Seq<char>,
    pub note: Option<Seq<char>>,
    pub due_date: Option<Seq<char>>,
    pub sort_order: i64,
    pub completed: bool,
    pub created_at: Seq<char>,
    pub updated_at: Seq<char>,
}

impl View for ChecklistTask {
    type V = TaskView;

    open spec fn view(&self) -> TaskView {
        TaskView {
            id: self.id,
            category_key: self.category_key@,
            subject_id: self.subject_id,
            title: self.title@,
            note: crate::caldav::opt_view(self.note),
            due_date: crate::caldav::opt_view(self.due_date),
            sort_order: self.sort_order,
            completed: self.completed,
            created_at: self.created_at@,
            updated_at: self.updated_at@,
        }
    }
}

/// A stored task shown under a category: the category's subject when the
/// task has none.
pub open spec fn record_view(t: TaskRecord, key: ChecklistCategoryKey) -> TaskView {
    TaskView {
        id: t.id,
        category_key: key_text(key),
        subject_id: match t.subject_id {
            Some(s) => Some(s),
            None => subject_of(key),
        },
        title: t.title@,
        note: crate::caldav::opt_view(t.note),
        due_date: crate::caldav::opt_view(t.due_date),
        sort_order: t.sort_order,
        completed: t.completed,
        created_at: t.created_at@,
        updated_at: t.updated_at@,
    }
}

fn clone_opt(o: &Option<String>) -> (r: Option<String>)
    ensures
        crate::caldav::opt_view(r) == crate::caldav::opt_view(*o),
{
    match o {
        Some(s) => Some(s.clone()),
        None => None,
    }
}

/// A stored task as shown under a category.
pub fn map_task_record_to_view(task: &TaskRecord, key: ChecklistCategoryKey) -> (r: ChecklistTask)
    ensures
        r@ == record_view(*task, key),
{
    ChecklistTask {
        id: task.id,
        category_key: key.as_str(),
        subject_id: match task.subject_id {
            Some(s) => Some(s),
            None => category_subject_id(key),
        },
        title: task.title.clone(),
        note: clone_opt(&task.note),
        due_date: clone_opt(&task.due_date),
        sort_order: task.sort_order,
        completed: task.completed,
        created_at: task.created_at.clone(),
        updated_at: task.updated_at.clone(),
    }
}

/// The tasks of a category with the given completion, in stored order.
pub open spec fn group_spec(tasks: Seq<TaskRecord>, key: ChecklistCategoryKey, completed: bool) -> Seq<TaskView>
    decreases tasks.len(),
{
    if tasks.len() == 0 {
        Seq::empty()
    } else {
        let t = tasks.last();
        if category_of_scope(t.board_scope@) == key && t.completed == completed {
            group_spec(tasks.drop_last(), key, completed).push(record_view(t, key))
        } else {
            group_spec(tasks.drop_last(), key, completed)
        }
    }
}

pub open spec fn tasks_view(v: Seq<ChecklistTask>) -> Seq<TaskView> {
    v.map_values(|t: ChecklistTask| t@)
}

/// The pending and completed tasks of a category.
pub fn group_category_tasks(tasks: &Vec<TaskRecord>, key: ChecklistCategoryKey) -> (r: (
    Vec<ChecklistTask>,
    Vec<ChecklistTask>,
))
    ensures
        tasks_view(r.0@) == group_spec(tasks@, key, false),
        tasks_view(r.1@) == group_spec(tasks@, key, true),
{
    let mut pending: Vec<ChecklistTask> = Vec::new();
    let mut done: Vec<ChecklistTask> = Vec::new();
    let mut i: usize = 0;
    assert(tasks_view(pending@) =~= Seq::<TaskView>::empty());
    assert(tasks_view(done@) =~= Seq::<TaskView>::empty());
    while i < tasks.len()
        invariant
            i <= tasks@.len(),
            tasks_view(pending@) == group_spec(tasks@.subrange(0, i as int), key, false),
            tasks_view(done@) == group_spec(tasks@.subrange(0, i as int), key, true),
        decreases tasks.len() - i,
    {
        assert(tasks@.subrange(0, i + 1).drop_last() =~= tasks@.subrange(0, i as int));
        assert(tasks@.subrange(0, i + 1).last() == tasks@[i as int]);
        let t = &tasks[i];
        if map_board_scope_to_category_key(t.board_scope.as_str()) == key {
            let view = map_task_record_to_view(t, key);
            let ghost vv = view@;
            if t.completed {
                let ghost before = tasks_view(done@);
                done.push(view);
                assert(tasks_view(done@) =~= before.push(vv));
            } else {
                let ghost before = tasks_view(pending@);
                pending.push(view);
                assert(tasks_view(pending@) =~= before.push(vv));
            }
        }
        i += 1;
    }
    assert(tasks@.subrange(0, tasks@.len() as int) =~= tasks@);
    (pending, done)
}

/// The name of a category: its trimmed, non-blank name in the stored JSON
/// object of names, else its default label.
pub open spec fn category_name_spec(raw: Seq<char>, key: ChecklistCategoryKey) -> Seq<char> {
    match json_string_field_result(raw, key_text(key)) {
        Some(Some(n)) => if trim_spec(n).len() != 0 {
            trim_spec(n)
        } else {
            key_label(key)
        },
        _ => key_label(key),
    }
}

/// The name of a category from the stored names (`raw`).
pub fn category_name(raw: &str, key: ChecklistCategoryKey) -> (r: String)
    ensures
        r@ == category_name_spec(raw@, key),
{
    match json_string_field(raw, key.as_str().as_str()) {
        Some(Some(n)) => {
            let t = trim(n.as_str());
            if !t.as_str().is_empty() {
                t
            } else {
                key.default_label()
            }
        },
        _ => key.default_label(),
    }
}

/// The checklist page: the five categories in order, each with its name,
/// its pending and completed tasks, and whether it is the category of the
/// subject being studied (which also picks the active category, politics
/// by default).
pub fn build_checklist_page_data(
    today_date: &str,
    highlighted_subject_id: Option<i64>,
    names_json: &str,
    tasks: &Vec<TaskRecord>,
    today_items: Vec<TodayPlanItem>,
) -> (r: ChecklistPageData)
    ensures
        r.today_date@ == today_date@,
        r.highlighted_subject_id == highlighted_subject_id,
        r.active_category_key@ == key_text(
            match category_of_subject(highlighted_subject_id) {
                Some(k) => k,
                None => ChecklistCategoryKey::Politics,
            },
        ),
        r.categories@.len() == 5,
        forall|j: int|
            0 <= j < 5 ==> {
                let key = #[trigger] category_order()[j];
                let c = r.categories@[j];
                &&& c.key@ == key_text(key)
                &&& c.title@ == category_name_spec(names_json@, key)
                &&& tasks_view(c.pending_tasks@) == group_spec(tasks@, key, false)
                &&& tasks_view(c.completed_tasks@) == group_spec(tasks@, key, true)
                &&& c.highlighted == (subject_of(key) == highlighted_subject_id)
            },
        r.today_items@ == today_items@,
{
    let order = category_order_vec();
    let mut categories: Vec<ChecklistCategory> = Vec::new();
    let mut j: usize = 0;
    while j < order.len()
        invariant
            j <= order@.len(),
            order@ == category_order(),
            categories@.len() == j,
            forall|m: int|
                0 <= m < j ==> {
                    let key = #[trigger] category_order()[m];
                    let c = categories@[m];
                    &&& c.key@ == key_text(key)
                    &&& c.title@ == category_name_spec(names_json@, key)
                    &&& tasks_view(c.pending_tasks@) == group_spec(tasks@, key, false)
                    &&& tasks_view(c.completed_tasks@) == group_spec(tasks@, key, true)
                    &&& c.highlighted == (subject_of(key) == highlighted_subject_id)
                },
        decreases order.len() - j,
    {
        let key = order[j];
        let (pending, done) = group_category_tasks(tasks, key);
        let category = ChecklistCategory {
            key: key.as_str(),
            title: category_name(names_json, key),
            pending_tasks: pending,
            completed_tasks: done,
            highlighted: category_subject_id(key) == highlighted_subject_id,
        };
        categories.push(category);
        j += 1;
    }
    let active = match category_key_for_subject_id(highlighted_subject_id) {
        Some(k) => k,
        None => ChecklistCategoryKey::Politics,
    };
    ChecklistPageData {
        today_date: String::from_str(today_date),
        active_category_key: active.as_str(),
        highlighted_subject_id,
        categories,
        today_items,
    }
}


/// How many tasks a category shows, pending and completed together.
pub open spec fn shown_count(tasks: Seq<TaskRecord>, key: ChecklistCategoryKey) -> int {
    group_spec(tasks, key, false).len() + group_spec(tasks, key, true).len() as int
}

/// How many tasks the five categories of the page show together.
pub open spec fn page_task_count(tasks: Seq<TaskRecord>) -> int {
    shown_count(tasks, ChecklistCategoryKey::Politics) + shown_count(tasks, ChecklistCategoryKey::English)
        + shown_count(tasks, ChecklistCategoryKey::Math) + shown_count(tasks, ChecklistCategoryKey::Major)
        + shown_count(tasks, ChecklistCategoryKey::General)
}

/// Every stored task is shown exactly once on the checklist page: under the
/// category of its board, among the pending or the completed tasks by its
/// completion. The five categories of the page together show as many tasks
/// as are stored, and each task lands in one of them.
pub proof fn lemma_every_task_shown_once(tasks: Seq<TaskRecord>)
    ensures
        page_task_count(tasks) == tasks.len(),
        forall|i: int| 0 <= i < category_order().len() ==> shown_count(tasks, #[trigger] category_order()[i])
            <= tasks.len(),
    decreases tasks.len(),
{
    if tasks.len() > 0 {
        lemma_every_task_shown_once(tasks.drop_last());
    }
    assert forall|i: int| 0 <= i < category_order().len() implies shown_count(
        tasks,
        #[trigger] category_order()[i],
    ) <= tasks.len() by {
        let key = category_order()[i];
        assert(shown_count(tasks, key) <= page_task_count(tasks));
    }
}

} // verus!
