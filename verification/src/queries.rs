//! What the read commands ask the Things database, and how the answers
//! become rows.

use vstd::prelude::*;
use vstd::string::*;
use crate::dates::{
    civil_from_days, date_from_unix_seconds, date_text, decode_things_date, decoded_date,
    f64_as_i64, f64_bits_positive, f64_is_positive, seconds_from_f64_bits,
};
use crate::error::TdoError;
use crate::json::{Json, Value};
use crate::model::{ChecklistItem, KeyValue, Row};
use crate::text::{join, push_char, split_on, views};

verus! {

// ---------------------------------------------------------------------------
// Queries
// ---------------------------------------------------------------------------

/// Inbox: unprocessed tasks, not in a project or area.
pub const INBOX_SQL: &'static str = "SELECT t.uuid, t.title, p.title AS projectTitle, a.title AS areaTitle, t.startDate, t.deadline, t.stopDate, t.status FROM TMTask t LEFT JOIN TMTask p ON t.project = p.uuid AND p.type = 1 LEFT JOIN TMArea a ON t.area = a.uuid WHERE t.start = 0 AND t.status = 0 AND t.trashed = 0 AND t.type = 0 AND t.project IS NULL AND t.area IS NULL ORDER BY t.\"index\"";

/// Today: started open tasks, in Today order.
pub const TODAY_SQL: &'static str = "SELECT t.uuid, t.title, p.title AS projectTitle, a.title AS areaTitle, t.startDate, t.deadline, t.stopDate, t.status FROM TMTask t LEFT JOIN TMTask p ON t.project = p.uuid AND p.type = 1 LEFT JOIN TMArea a ON t.area = a.uuid WHERE t.start = 1 AND t.status = 0 AND t.trashed = 0 AND t.type = 0 ORDER BY t.todayIndex";

/// Upcoming: open tasks with a start date, earliest first.
pub const UPCOMING_SQL: &'static str = "SELECT t.uuid, t.title, p.title AS projectTitle, a.title AS areaTitle, t.startDate, t.deadline, t.stopDate, t.status FROM TMTask t LEFT JOIN TMTask p ON t.project = p.uuid AND p.type = 1 LEFT JOIN TMArea a ON t.area = a.uuid WHERE t.startDate IS NOT NULL AND t.startDate > 0 AND t.status = 0 AND t.trashed = 0 AND t.type = 0 ORDER BY t.startDate ASC";

/// Anytime: started open tasks that are not in Today, that is, without a
/// Today position for the current date, whose packed date is `?1`.
pub const ANYTIME_SQL: &'static str = "SELECT t.uuid, t.title, p.title AS projectTitle, a.title AS areaTitle, t.startDate, t.deadline, t.stopDate, t.status FROM TMTask t LEFT JOIN TMTask p ON t.project = p.uuid AND p.type = 1 LEFT JOIN TMArea a ON t.area = a.uuid WHERE t.start = 1 AND t.status = 0 AND t.trashed = 0 AND t.type = 0 AND (t.todayIndex IS NULL OR t.todayIndex = 0 OR t.todayIndexReferenceDate IS NULL OR t.todayIndexReferenceDate != ?1) ORDER BY t.\"index\"";

/// Someday: deferred open tasks.
pub const SOMEDAY_SQL: &'static str = "SELECT t.uuid, t.title, p.title AS projectTitle, a.title AS areaTitle, t.startDate, t.deadline, t.stopDate, t.status FROM TMTask t LEFT JOIN TMTask p ON t.project = p.uuid AND p.type = 1 LEFT JOIN TMArea a ON t.area = a.uuid WHERE t.start = 2 AND t.status = 0 AND t.trashed = 0 AND t.type = 0 ORDER BY t.\"index\"";

/// Logbook: completed items, most recent first, at most `?1` of them.
pub const LOGBOOK_SQL: &'static str = "SELECT t.uuid, t.title, p.title AS projectTitle, a.title AS areaTitle, t.startDate, t.deadline, t.stopDate, t.status FROM TMTask t LEFT JOIN TMTask p ON t.project = p.uuid AND p.type = 1 LEFT JOIN TMArea a ON t.area = a.uuid WHERE t.status = 3 AND t.trashed = 0 ORDER BY t.stopDate DESC LIMIT ?1";

/// Search: tasks and projects whose title or notes match the pattern `?1`.
pub const SEARCH_SQL: &'static str = "SELECT t.uuid, t.title, p.title AS projectTitle, a.title AS areaTitle, t.startDate, t.deadline, t.stopDate, t.status FROM TMTask t LEFT JOIN TMTask p ON t.project = p.uuid AND p.type = 1 LEFT JOIN TMArea a ON t.area = a.uuid WHERE (t.title LIKE ?1 OR t.notes LIKE ?1) AND t.trashed = 0 AND (t.type = 0 OR t.type = 1) ORDER BY t.title";

/// A single task, project or heading by UUID `?1`.
pub const SHOW_TASK_SQL: &'static str = "SELECT t.uuid, t.title, p.title AS projectTitle, a.title AS areaTitle, t.startDate, t.deadline, t.stopDate, t.status FROM TMTask t LEFT JOIN TMTask p ON t.project = p.uuid AND p.type = 1 LEFT JOIN TMArea a ON t.area = a.uuid WHERE t.uuid = ?1";

/// Open tasks of the project with UUID `?1`.
pub const PROJECT_TASKS_SQL: &'static str = "SELECT t.uuid, t.title, p.title AS projectTitle, a.title AS areaTitle, t.startDate, t.deadline, t.stopDate, t.status FROM TMTask t LEFT JOIN TMTask p ON t.project = p.uuid AND p.type = 1 LEFT JOIN TMArea a ON t.area = a.uuid WHERE t.project = ?1 AND t.status = 0 AND t.trashed = 0 AND t.type = 0 ORDER BY t.\"index\"";

/// The UUID of a project whose title is `?1`, ignoring case.
pub const PROJECT_BY_TITLE_SQL: &'static str = "SELECT uuid FROM TMTask WHERE type = 1 AND title = ?1 COLLATE NOCASE ORDER BY \"index\" LIMIT 1";

/// The UUID of the project whose UUID is `?1`.
pub const PROJECT_BY_UUID_SQL: &'static str = "SELECT uuid FROM TMTask WHERE type = 1 AND uuid = ?1";

/// Tag titles of the task `?1`, in tag order.
pub const TASK_TAGS_SQL: &'static str = "SELECT TMTag.title FROM TMTaskTag JOIN TMTag ON TMTaskTag.tags = TMTag.uuid WHERE TMTaskTag.tasks = ? ORDER BY TMTag.\"index\"";

/// Open projects.
pub const PROJECTS_SQL: &'static str = "SELECT t.uuid, t.title, a.title AS areaTitle, t.deadline, t.openUntrashedLeafActionsCount FROM TMTask t LEFT JOIN TMArea a ON t.area = a.uuid WHERE t.type = 1 AND t.status = 0 AND t.trashed = 0 ORDER BY t.\"index\"";

/// Visible areas.
pub const AREAS_SQL: &'static str = "SELECT uuid, title FROM TMArea WHERE visible = 1 ORDER BY \"index\"";

/// All tags, with their parents' titles.
pub const TAGS_SQL: &'static str = "SELECT t.uuid, t.title, t.shortcut, p.title AS parentTitle FROM TMTag t LEFT JOIN TMTag p ON t.parent = p.uuid ORDER BY t.\"index\"";

/// The notes of the item `?1`.
pub const NOTES_SQL: &'static str = "SELECT notes FROM TMTask WHERE uuid = ?1";

/// The type of the item `?1`.
pub const TYPE_SQL: &'static str = "SELECT type FROM TMTask WHERE uuid = ?1";

/// The checklist of the task `?1`, in order.
pub const CHECKLIST_SQL: &'static str = "SELECT title, status FROM TMChecklistItem WHERE task = ?1 ORDER BY \"index\"";

/// An area by UUID `?1`.
pub const SHOW_AREA_SQL: &'static str = "SELECT uuid, title FROM TMArea WHERE uuid = ?1";

/// The counts that the stats command reports, in order, with their labels.
pub const STATS_LABELS: [&'static str; 10] = [
    "inbox",
    "today",
    "upcoming",
    "someday",
    "completed",
    "cancelled",
    "trashed",
    "projects",
    "areas",
    "tags",
];

pub const STATS_SQL: [&'static str; 10] = [
    "SELECT COUNT(*) FROM TMTask WHERE start = 0 AND status = 0 AND trashed = 0 AND type = 0 AND project IS NULL AND area IS NULL",
    "SELECT COUNT(*) FROM TMTask WHERE start = 1 AND status = 0 AND trashed = 0 AND type = 0",
    "SELECT COUNT(*) FROM TMTask WHERE startDate IS NOT NULL AND startDate > 0 AND status = 0 AND trashed = 0 AND type = 0",
    "SELECT COUNT(*) FROM TMTask WHERE start = 2 AND status = 0 AND trashed = 0 AND type = 0",
    "SELECT COUNT(*) FROM TMTask WHERE status = 3 AND trashed = 0",
    "SELECT COUNT(*) FROM TMTask WHERE status = 2 AND trashed = 0",
    "SELECT COUNT(*) FROM TMTask WHERE trashed = 1",
    "SELECT COUNT(*) FROM TMTask WHERE type = 1 AND status = 0 AND trashed = 0",
    "SELECT COUNT(*) FROM TMArea WHERE visible = 1",
    "SELECT COUNT(*) FROM TMTag",
];

// ---------------------------------------------------------------------------
// Rows
// ---------------------------------------------------------------------------

/// Data fields of one task from a task query. The stop date is the double
/// that the database holds, given by its IEEE 754 bits.
pub struct TaskData {
    pub title: String,
    pub project_title: Option<String>,
    pub area_title: Option<String>,
    pub start_date: Option<i64>,
    pub deadline: Option<i64>,
    pub stop_date_bits: Option<u64>,
    pub status: Option<i64>,
}

/// A text field, or null when absent.
pub open spec fn opt_text(o: Option<String>) -> Json {
    match o {
        Some(s) => Json::Text(s@),
        None => Json::Null,
    }
}

/// A text field, or null when empty.
pub open spec fn text_or_null(s: Seq<char>) -> Json {
    if s.len() == 0 {
        Json::Null
    } else {
        Json::Text(s)
    }
}

/// A packed date as text, or null when absent or zero.
pub open spec fn date_json(o: Option<i64>) -> Json {
    match o {
        Some(v) => match decoded_date(v) {
            Some(t) => Json::Text(t),
            None => Json::Null,
        },
        None => Json::Null,
    }
}

/// `YYYY-MM-DD` of a Unix timestamp in whole seconds.
pub open spec fn unix_date_text(secs: int) -> Seq<char> {
    let c = civil_from_days(secs / 86400);
    date_text(c.0, c.1, c.2)
}

/// The completion date: the date of a positive stop timestamp, else null.
pub open spec fn completed_json(o: Option<u64>) -> Json {
    match o {
        Some(bits) => if f64_is_positive(bits) {
            Json::Text(unix_date_text(f64_as_i64(bits) as int))
        } else {
            Json::Null
        },
        None => Json::Null,
    }
}

pub open spec fn status_name(s: i64) -> Seq<char> {
    if s == 0 {
        "open"@
    } else if s == 2 {
        "cancelled"@
    } else if s == 3 {
        "completed"@
    } else {
        "unknown"@
    }
}

/// The fields of a task row.
pub open spec fn task_row_map(uuid: Seq<char>, data: TaskData, tags: Seq<char>) -> Map<
    Seq<char>,
    Json,
> {
    let base = Map::<Seq<char>, Json>::empty().insert("id"@, Json::Text(uuid)).insert(
        "title"@,
        Json::Text(data.title@),
    ).insert("tags"@, text_or_null(tags)).insert("project"@, opt_text(data.project_title)).insert(
        "area"@,
        opt_text(data.area_title),
    ).insert("startDate"@, date_json(data.start_date)).insert(
        "deadline"@,
        date_json(data.deadline),
    ).insert("completedDate"@, completed_json(data.stop_date_bits));
    match data.status {
        Some(s) => base.insert("status"@, Json::Text(status_name(s))),
        None => base,
    }
}

/// The tag titles that were read, in order.
pub open spec fn present_titles(tags: Seq<Option<String>>) -> Seq<Seq<char>>
    decreases tags.len(),
{
    if tags.len() == 0 {
        Seq::<Seq<char>>::empty()
    } else {
        let before = present_titles(tags.drop_last());
        match tags.last() {
            Some(t) => before.push(t@),
            None => before,
        }
    }
}

/// The tags of an item as one comma-separated text: the titles that were
/// read (rows that failed to read are skipped), in order.
pub fn tags_text(tags: &[Option<String>]) -> (r: String)
    ensures
        r@ == join(present_titles(tags@), ","@),
{
    let mut titles: Vec<String> = Vec::new();
    let mut i: usize = 0;
    while i < tags.len()
        invariant
            0 <= i <= tags@.len(),
            views(titles@) == present_titles(tags@.take(i as int)),
        decreases tags@.len() - i,
    {
        let ghost prev = titles@;
        assert(tags@.take(i + 1).drop_last() =~= tags@.take(i as int));
        match &tags[i] {
            Some(t) => {
                let t2 = t.clone();
                titles.push(t2);
                proof {
                    crate::text::lemma_views_push(prev, t2);
                }
            },
            None => {},
        }
        i = i + 1;
    }
    assert(tags@.take(tags@.len() as int) =~= tags@);
    crate::text::join_strings(titles.as_slice(), ",")
}

fn opt_text_value(o: Option<String>) -> (r: Value)
    ensures
        crate::json::json_of(r) == opt_text(o),
{
    match o {
        Some(s) => Value::String(s),
        None => Value::Null,
    }
}

fn text_or_null_value(s: String) -> (r: Value)
    ensures
        crate::json::json_of(r) == text_or_null(s@),
{
    if s.as_str().is_empty() {
        Value::Null
    } else {
        Value::String(s)
    }
}

fn date_value(o: Option<i64>) -> (r: Value)
    ensures
        crate::json::json_of(r) == date_json(o),
{
    match o {
        Some(v) => match decode_things_date(v) {
            Some(t) => Value::String(t),
            None => Value::Null,
        },
        None => Value::Null,
    }
}

fn completed_value(o: Option<u64>) -> (r: Value)
    ensures
        crate::json::json_of(r) == completed_json(o),
{
    match o {
        Some(bits) => {
            if f64_bits_positive(bits) {
                Value::String(date_from_unix_seconds(seconds_from_f64_bits(bits)))
            } else {
                Value::Null
            }
        },
        None => Value::Null,
    }
}

fn status_value(s: i64) -> (r: Value)
    ensures
        crate::json::json_of(r) == Json::Text(status_name(s)),
{
    let name = if s == 0 {
        "open"
    } else if s == 2 {
        "cancelled"
    } else if s == 3 {
        "completed"
    } else {
        "unknown"
    };
    Value::String(name.to_owned())
}

/// Build the row of a task: its id, title, tags, project, area, dates, and
/// status (when the query gave one).
pub fn task_row(uuid: &str, data: TaskData, tags: String) -> (r: Row)
    ensures
        r@ == task_row_map(uuid@, data, tags@),
{
    let ghost d = data;
    let ghost t = tags@;
    let mut row = Row::new();
    row.set("id", Value::String(uuid.to_owned()));
    row.set("title", Value::String(data.title));
    row.set("tags", text_or_null_value(tags));
    row.set("project", opt_text_value(data.project_title));
    row.set("area", opt_text_value(data.area_title));
    row.set("startDate", date_value(data.start_date));
    row.set("deadline", date_value(data.deadline));
    row.set("completedDate", completed_value(data.stop_date_bits));
    if let Some(s) = data.status {
        row.set("status", status_value(s));
    }
    assert(row@ =~= task_row_map(uuid@, d, t));
    row
}

/// The fields of a project row.
pub open spec fn project_row_map(
    uuid: Seq<char>,
    title: Seq<char>,
    area: Option<String>,
    deadline: Option<i64>,
    open_tasks: Option<i64>,
    tags: Seq<char>,
) -> Map<Seq<char>, Json> {
    Map::<Seq<char>, Json>::empty().insert("id"@, Json::Text(uuid)).insert(
        "title"@,
        Json::Text(title),
    ).insert("area"@, opt_text(area)).insert("tags"@, text_or_null(tags)).insert(
        "deadline"@,
        date_json(deadline),
    ).insert(
        "openTasks"@,
        Json::Number(
            match open_tasks {
                Some(n) => n as int,
                None => 0,
            },
        ),
    )
}

/// Build the row of an open project, with its count of open tasks (0 when unknown).
pub fn project_row(
    uuid: String,
    title: String,
    area: Option<String>,
    deadline: Option<i64>,
    open_tasks: Option<i64>,
    tags: String,
) -> (r: Row)
    ensures
        r@ == project_row_map(uuid@, title@, area, deadline, open_tasks, tags@),
{
    let ghost (u, t, tg) = (uuid@, title@, tags@);
    let ghost a = area;
    let mut row = Row::new();
    row.set("id", Value::String(uuid));
    row.set("title", Value::String(title));
    row.set("area", opt_text_value(area));
    row.set("tags", text_or_null_value(tags));
    row.set("deadline", date_value(deadline));
    let count = match open_tasks {
        Some(n) => n,
        None => 0,
    };
    row.set("openTasks", Value::Number(count));
    assert(row@ =~= project_row_map(u, t, a, deadline, open_tasks, tg));
    row
}

pub open spec fn area_row_map(uuid: Seq<char>, title: Seq<char>) -> Map<Seq<char>, Json> {
    Map::<Seq<char>, Json>::empty().insert("id"@, Json::Text(uuid)).insert(
        "title"@,
        Json::Text(title),
    )
}

/// Build the row of an area.
pub fn area_row(uuid: String, title: String) -> (r: Row)
    ensures
        r@ == area_row_map(uuid@, title@),
{
    let ghost (u, t) = (uuid@, title@);
    let mut row = Row::new();
    row.set("id", Value::String(uuid));
    row.set("title", Value::String(title));
    assert(row@ =~= area_row_map(u, t));
    row
}

/// A shortcut, or null when absent or empty.
pub open spec fn shortcut_json(o: Option<String>) -> Json {
    match o {
        Some(s) => text_or_null(s@),
        None => Json::Null,
    }
}

pub open spec fn tag_row_map(
    uuid: Seq<char>,
    title: Seq<char>,
    shortcut: Option<String>,
    parent: Option<String>,
) -> Map<Seq<char>, Json> {
    Map::<Seq<char>, Json>::empty().insert("id"@, Json::Text(uuid)).insert(
        "title"@,
        Json::Text(title),
    ).insert("shortcut"@, shortcut_json(shortcut)).insert("parent"@, opt_text(parent))
}

/// Build the row of a tag: its shortcut (null when empty) and parent's title.
pub fn tag_row(uuid: String, title: String, shortcut: Option<String>, parent: Option<String>) -> (r:
    Row)
    ensures
        r@ == tag_row_map(uuid@, title@, shortcut, parent),
{
    let ghost (u, t) = (uuid@, title@);
    let ghost (sc, pa) = (shortcut, parent);
    let mut row = Row::new();
    row.set("id", Value::String(uuid));
    row.set("title", Value::String(title));
    let sc_value = match shortcut {
        Some(s) => text_or_null_value(s),
        None => Value::Null,
    };
    row.set("shortcut", sc_value);
    row.set("parent", opt_text_value(parent));
    assert(row@ =~= tag_row_map(u, t, sc, pa));
    row
}

pub open spec fn item_kind_name(t: i64) -> Seq<char> {
    if t == 0 {
        "task"@
    } else if t == 1 {
        "project"@
    } else if t == 2 {
        "heading"@
    } else {
        "unknown"@
    }
}

/// One checklist item as shown: whether it is completed (status 3), and its title.
pub open spec fn checklist_json(item: ChecklistItem) -> Json {
    Json::Record(
        seq![("completed"@, Json::Bool(item.status == 3)), ("title"@, Json::Text(item.title@))],
    )
}

/// The tag titles as a JSON list of texts.
pub open spec fn tag_list_json(tags: Seq<Option<String>>) -> Json {
    Json::List(present_titles(tags).map_values(|t: Seq<char>| Json::Text(t)))
}

/// The fields that show sets on a task's row: notes (null when absent or
/// empty), type, the tags as a list of titles, and the checklist as a list
/// (empty when the task has none).
pub open spec fn show_task_map(
    base: Map<Seq<char>, Json>,
    notes: Option<String>,
    task_type: i64,
    tags: Seq<Option<String>>,
    items: Seq<ChecklistItem>,
) -> Map<Seq<char>, Json> {
    base.insert("notes"@, shortcut_json(notes)).insert(
        "type"@,
        Json::Text(item_kind_name(task_type)),
    ).insert("tags"@, tag_list_json(tags)).insert(
        "checklistItems"@,
        Json::List(items.map_values(|i: ChecklistItem| checklist_json(i))),
    )
}

/// The tag titles that were read, in order, as JSON texts.
fn tag_values(tags: &[Option<String>]) -> (r: Vec<Value>)
    ensures
        Json::List(crate::json::json_of_items(r@)) == tag_list_json(tags@),
{
    let mut values: Vec<Value> = Vec::new();
    let mut i: usize = 0;
    while i < tags.len()
        invariant
            0 <= i <= tags@.len(),
            crate::json::json_of_items(values@) == present_titles(tags@.take(i as int)).map_values(
                |t: Seq<char>| Json::Text(t),
            ),
        decreases tags@.len() - i,
    {
        let ghost before = present_titles(tags@.take(i as int));
        assert(tags@.take(i + 1).drop_last() =~= tags@.take(i as int));
        assert(tags@.take(i + 1).last() == tags@[i as int]);
        match &tags[i] {
            Some(t) => {
                let ghost prev = values@;
                let v = Value::String(t.clone());
                assert(crate::json::json_of(v) == Json::Text(t@));
                values.push(v);
                proof {
                    assert(values@.drop_last() =~= prev);
                    assert(crate::json::json_of(values@.last()) == Json::Text(t@));
                    assert(crate::json::json_of_items(values@) == crate::json::json_of_items(
                        prev,
                    ).push(Json::Text(t@)));
                    assert(present_titles(tags@.take(i + 1)) == before.push(t@));
                    assert(before.push(t@).map_values(|t: Seq<char>| Json::Text(t)) =~= before.map_values(
                        |t: Seq<char>| Json::Text(t),
                    ).push(Json::Text(t@)));
                }
            },
            None => {
                assert(present_titles(tags@.take(i + 1)) == before);
            },
        }
        i = i + 1;
    }
    assert(tags@.take(tags@.len() as int) =~= tags@);
    values
}

/// Completes a task's row for the show command.
pub fn show_task_row(
    base: Row,
    notes: Option<String>,
    task_type: i64,
    tags: &[Option<String>],
    items: Vec<ChecklistItem>,
) -> (r: Row)
    ensures
        r@ == show_task_map(base@, notes, task_type, tags@, items@),
{
    let ghost n = notes;
    let ghost its = items@;
    let mut row = base;
    let notes_value = match notes {
        Some(s) => text_or_null_value(s),
        None => Value::Null,
    };
    row.set("notes", notes_value);
    let name = if task_type == 0 {
        "task"
    } else if task_type == 1 {
        "project"
    } else if task_type == 2 {
        "heading"
    } else {
        "unknown"
    };
    row.set("type", Value::String(name.to_owned()));
    row.set("tags", Value::Array(tag_values(tags)));
    let ghost expected = its.map_values(|i: ChecklistItem| checklist_json(i));
    let mut values: Vec<Value> = Vec::new();
    let mut k: usize = 0;
    while k < items.len()
        invariant
            0 <= k <= its.len(),
            items@ == its,
            expected == its.map_values(|i: ChecklistItem| checklist_json(i)),
            crate::json::json_of_items(values@) == expected.take(k as int),
        decreases its.len() - k,
    {
        let item = &items[k];
        let obj = checklist_value(item);
        let ghost prev = values@;
        values.push(obj);
        proof {
            assert(values@.drop_last() =~= prev);
            assert(expected.take(k + 1) =~= expected.take(k as int).push(expected[k as int]));
        }
        k = k + 1;
    }
    assert(expected.take(its.len() as int) =~= expected);
    row.set("checklistItems", Value::Array(values));
    assert(row@ =~= show_task_map(base@, n, task_type, tags@, its));
    row
}

/// One checklist item as a JSON object.
fn checklist_value(item: &ChecklistItem) -> (r: Value)
    ensures
        crate::json::json_of(r) == checklist_json(*item),
{
    let mut fields: Vec<(String, Value)> = Vec::new();
    fields.push(("completed".to_owned(), Value::Bool(item.status == 3)));
    fields.push(("title".to_owned(), Value::String(item.title.clone())));
    let obj = Value::Object(fields);
    proof {
        let f = fields@;
        assert(f.drop_last() =~= seq![f[0]]);
        assert(seq![f[0]].drop_last() =~= Seq::<(String, Value)>::empty());
        let e0 = ("completed"@, Json::Bool(item.status == 3));
        let e1 = ("title"@, Json::Text(item.title@));
        let x = f[0];
        let y = f[1];
        assert(x.0@ == "completed"@);
        assert(crate::json::json_of(x.1) == Json::Bool(item.status == 3));
        assert(y.0@ == "title"@);
        assert(crate::json::json_of(y.1) == Json::Text(item.title@));
        assert(crate::json::json_of_entries(Seq::<(String, Value)>::empty()) =~= Seq::<
            (Seq<char>, Json),
        >::empty());
        assert(seq![x].last() == x);
        assert(crate::json::json_of_entries(seq![x]) == crate::json::json_of_entries(
            seq![x].drop_last(),
        ).push((x.0@, crate::json::json_of(x.1))));
        assert(crate::json::json_of_entries(seq![f[0]]) =~= seq![e0]);
        assert(crate::json::json_of_entries(f) == crate::json::json_of_entries(seq![f[0]]).push(
            e1,
        ));
        assert(crate::json::json_of_entries(f) =~= seq![
            ("completed"@, Json::Bool(item.status == 3)),
            ("title"@, Json::Text(item.title@)),
        ]);
    }
    obj
}

pub open spec fn show_area_map(uuid: Seq<char>, title: Seq<char>) -> Map<Seq<char>, Json> {
    area_row_map(uuid, title).insert("type"@, Json::Text("area"@))
}

/// What show answers: the task when there is one with that id, else the
/// area, else that the item was not found.
pub fn show_item(id: &str, task: Option<Row>, area: Option<(String, String)>) -> (r: Result<
    Row,
    TdoError,
>)
    ensures
        match task {
            Some(t) => r matches Ok(row) && row@ == t@,
            None => match area {
                Some(a) => r matches Ok(row) && row@ == show_area_map(a.0@, a.1@),
                None => r matches Err(TdoError::NotFound(s)) && s@ == id@,
            },
        },
{
    match task {
        Some(t) => Ok(t),
        None => match area {
            Some((uuid, title)) => {
                let mut row = area_row(uuid, title);
                row.set("type", Value::String("area".to_owned()));
                Ok(row)
            },
            None => Err(TdoError::NotFound(id.to_owned())),
        },
    }
}

/// The SQL `LIKE` pattern that matches `query` anywhere: `%query%`.
pub fn search_pattern(query: &str) -> (r: String)
    ensures
        r@ == seq!['%'] + query@ + seq!['%'],
{
    let mut r = String::new();
    push_char(&mut r, '%');
    r.append(query);
    push_char(&mut r, '%');
    r
}

/// The stats pairs: each label with its count, in order.
pub fn stats_kvs(counts: &[i64]) -> (r: Vec<KeyValue>)
    requires
        counts@.len() == 10,
    ensures
        r@.len() == 10,
        forall|i: int|
            0 <= i < 10 ==> (#[trigger] r@[i]).key@ == STATS_LABELS@[i]@ && crate::json::json_of(
                r@[i].value,
            ) == Json::Number(counts@[i] as int),
{
    let mut r: Vec<KeyValue> = Vec::new();
    let mut i: usize = 0;
    while i < 10
        invariant
            0 <= i <= 10,
            counts@.len() == 10,
            r@.len() == i,
            forall|j: int|
                0 <= j < i ==> (#[trigger] r@[j]).key@ == STATS_LABELS@[j]@
                    && crate::json::json_of(r@[j].value) == Json::Number(counts@[j] as int),
        decreases 10 - i,
    {
        r.push(KeyValue { key: STATS_LABELS[i].to_owned(), value: Value::Number(counts[i]) });
        i = i + 1;
    }
    r
}

/// The project that `project tasks` lists: the one whose title matches,
/// else the one with that UUID; not found when neither exists.
pub fn resolve_project(project: &str, by_title: Option<String>, by_uuid: Option<String>) -> (r:
    Result<String, TdoError>)
    ensures
        match by_title {
            Some(u) => r matches Ok(v) && v@ == u@,
            None => match by_uuid {
                Some(u) => r matches Ok(v) && v@ == u@,
                None => r matches Err(TdoError::NotFound(s)) && s@ == project@,
            },
        },
{
    match by_title {
        Some(u) => Ok(u),
        None => match by_uuid {
            Some(u) => Ok(u),
            None => Err(TdoError::NotFound(project.to_owned())),
        },
    }
}


// ---------------------------------------------------------------------------
// Laws of the rows
// ---------------------------------------------------------------------------

proof fn reveal_field_names()
    ensures
        "id"@ =~= seq!['i', 'd'],
        "title"@ =~= seq!['t', 'i', 't', 'l', 'e'],
        "tags"@ =~= seq!['t', 'a', 'g', 's'],
        "project"@ =~= seq!['p', 'r', 'o', 'j', 'e', 'c', 't'],
        "area"@ =~= seq!['a', 'r', 'e', 'a'],
        "startDate"@ =~= seq!['s', 't', 'a', 'r', 't', 'D', 'a', 't', 'e'],
        "deadline"@ =~= seq!['d', 'e', 'a', 'd', 'l', 'i', 'n', 'e'],
        "completedDate"@ =~= seq!['c', 'o', 'm', 'p', 'l', 'e', 't', 'e', 'd', 'D', 'a', 't', 'e'],
        "status"@ =~= seq!['s', 't', 'a', 't', 'u', 's'],
        "openTasks"@ =~= seq!['o', 'p', 'e', 'n', 'T', 'a', 's', 'k', 's'],
        "shortcut"@ =~= seq!['s', 'h', 'o', 'r', 't', 'c', 'u', 't'],
        "parent"@ =~= seq!['p', 'a', 'r', 'e', 'n', 't'],
        "notes"@ =~= seq!['n', 'o', 't', 'e', 's'],
        "type"@ =~= seq!['t', 'y', 'p', 'e'],
        "checklistItems"@ =~= seq!['c', 'h', 'e', 'c', 'k', 'l', 'i', 's', 't', 'I', 't', 'e', 'm', 's'],
{
    reveal_strlit("id");
    reveal_strlit("title");
    reveal_strlit("tags");
    reveal_strlit("project");
    reveal_strlit("area");
    reveal_strlit("startDate");
    reveal_strlit("deadline");
    reveal_strlit("completedDate");
    reveal_strlit("status");
    reveal_strlit("openTasks");
    reveal_strlit("shortcut");
    reveal_strlit("parent");
    reveal_strlit("notes");
    reveal_strlit("type");
    reveal_strlit("checklistItems");
}

/// Law: a task row has exactly the fields id, title, tags, project, area,
/// startDate, deadline and completedDate, and status when the query gave a
/// status. Each holds what the query gave: the id and title as texts; the
/// tags text, null when empty; the project's and the area's titles, null
/// when there is none; the start date and deadline as `decode_things_date`
/// reads them; the date of a positive stop time as `date_from_unix_seconds`
/// gives it; and the status by name.
pub proof fn lemma_task_row_fields(uuid: Seq<char>, data: TaskData, tags: Seq<char>)
    ensures
        ({
            let m = task_row_map(uuid, data, tags);
            &&& m.contains_key("id"@) && m["id"@] == Json::Text(uuid)
            &&& m.contains_key("title"@) && m["title"@] == Json::Text(data.title@)
            &&& m.contains_key("tags"@) && m["tags"@] == (if tags.len() == 0 {
                Json::Null
            } else {
                Json::Text(tags)
            })
            &&& m.contains_key("project"@) && m["project"@] == (match data.project_title {
                Some(p) => Json::Text(p@),
                None => Json::Null,
            })
            &&& m.contains_key("area"@) && m["area"@] == (match data.area_title {
                Some(a) => Json::Text(a@),
                None => Json::Null,
            })
            &&& m.contains_key("startDate"@) && m["startDate"@] == (match data.start_date {
                Some(v) => match decoded_date(v) {
                    Some(t) => Json::Text(t),
                    None => Json::Null,
                },
                None => Json::Null,
            })
            &&& m.contains_key("deadline"@) && m["deadline"@] == (match data.deadline {
                Some(v) => match decoded_date(v) {
                    Some(t) => Json::Text(t),
                    None => Json::Null,
                },
                None => Json::Null,
            })
            &&& m.contains_key("completedDate"@) && m["completedDate"@] == (match data.stop_date_bits {
                Some(b) => if f64_is_positive(b) {
                    let c = civil_from_days(f64_as_i64(b) as int / 86400);
                    Json::Text(date_text(c.0, c.1, c.2))
                } else {
                    Json::Null
                },
                None => Json::Null,
            })
            &&& (m.contains_key("status"@) <==> data.status is Some)
            &&& (data.status matches Some(s) ==> m["status"@] == Json::Text(
                if s == 0 {
                    "open"@
                } else if s == 2 {
                    "cancelled"@
                } else if s == 3 {
                    "completed"@
                } else {
                    "unknown"@
                },
            ))
            &&& forall|k: Seq<char>|
                #[trigger] m.contains_key(k) ==> k == "id"@ || k == "title"@ || k == "tags"@ || k
                    == "project"@ || k == "area"@ || k == "startDate"@ || k == "deadline"@ || k
                    == "completedDate"@ || k == "status"@
        }),
{
    reveal_field_names();
}

/// Law: a project row has exactly the fields id, title, area, tags, deadline
/// and openTasks: the id and title as texts, the area's title (null when
/// none), the tags text (null when empty), the deadline as
/// `decode_things_date` reads it, and openTasks the count the query gave, 0
/// only when the count is absent.
pub proof fn lemma_project_row_fields(
    uuid: Seq<char>,
    title: Seq<char>,
    area: Option<String>,
    deadline: Option<i64>,
    open_tasks: Option<i64>,
    tags: Seq<char>,
)
    ensures
        ({
            let m = project_row_map(uuid, title, area, deadline, open_tasks, tags);
            &&& m.contains_key("id"@) && m["id"@] == Json::Text(uuid)
            &&& m.contains_key("title"@) && m["title"@] == Json::Text(title)
            &&& m.contains_key("area"@) && m["area"@] == (match area {
                Some(a) => Json::Text(a@),
                None => Json::Null,
            })
            &&& m.contains_key("tags"@) && m["tags"@] == (if tags.len() == 0 {
                Json::Null
            } else {
                Json::Text(tags)
            })
            &&& m.contains_key("deadline"@) && m["deadline"@] == (match deadline {
                Some(v) => match decoded_date(v) {
                    Some(t) => Json::Text(t),
                    None => Json::Null,
                },
                None => Json::Null,
            })
            &&& m.contains_key("openTasks"@)
            &&& (open_tasks matches Some(n) ==> m["openTasks"@] == Json::Number(n as int))
            &&& (open_tasks is None ==> m["openTasks"@] == Json::Number(0))
            &&& forall|k: Seq<char>|
                #[trigger] m.contains_key(k) ==> k == "id"@ || k == "title"@ || k == "area"@ || k
                    == "tags"@ || k == "deadline"@ || k == "openTasks"@
        }),
{
    reveal_field_names();
}

/// Law: a tag row has exactly the fields id, title, shortcut and parent:
/// the id and title as texts, the shortcut text when it is present and not
/// empty (null otherwise), and the parent's title (null when none).
pub proof fn lemma_tag_row_fields(
    uuid: Seq<char>,
    title: Seq<char>,
    shortcut: Option<String>,
    parent: Option<String>,
)
    ensures
        ({
            let m = tag_row_map(uuid, title, shortcut, parent);
            &&& m.contains_key("id"@) && m["id"@] == Json::Text(uuid)
            &&& m.contains_key("title"@) && m["title"@] == Json::Text(title)
            &&& m.contains_key("shortcut"@)
            &&& m["shortcut"@] == (match shortcut {
                Some(s) => if s@.len() > 0 {
                    Json::Text(s@)
                } else {
                    Json::Null
                },
                None => Json::Null,
            })
            &&& m.contains_key("parent"@) && m["parent"@] == (match parent {
                Some(p) => Json::Text(p@),
                None => Json::Null,
            })
            &&& forall|k: Seq<char>|
                #[trigger] m.contains_key(k) ==> k == "id"@ || k == "title"@ || k == "shortcut"@
                    || k == "parent"@
        }),
{
    reveal_field_names();
}

/// Law: an area row has exactly the fields id and title, as given.
pub proof fn lemma_area_row_fields(uuid: Seq<char>, title: Seq<char>)
    ensures
        ({
            let m = area_row_map(uuid, title);
            &&& m.contains_key("id"@) && m["id"@] == Json::Text(uuid)
            &&& m.contains_key("title"@) && m["title"@] == Json::Text(title)
            &&& forall|k: Seq<char>| #[trigger] m.contains_key(k) ==> k == "id"@ || k == "title"@
        }),
{
    reveal_field_names();
}

/// Law: showing a task keeps every field of its row but notes, type, tags
/// and checklistItems, and sets those: the whole notes text when it is
/// present and not empty (null otherwise), the type by name, the tag titles
/// that were read as a list of texts in order, and one record per checklist
/// item in order, each with `completed` (status 3) and `title`.
pub proof fn lemma_show_task_fields(
    base: Map<Seq<char>, Json>,
    notes: Option<String>,
    task_type: i64,
    tags: Seq<Option<String>>,
    items: Seq<ChecklistItem>,
)
    ensures
        ({
            let m = show_task_map(base, notes, task_type, tags, items);
            &&& m.contains_key("notes"@)
            &&& m["notes"@] == (match notes {
                Some(n) => if n@.len() > 0 {
                    Json::Text(n@)
                } else {
                    Json::Null
                },
                None => Json::Null,
            })
            &&& m.contains_key("type"@) && m["type"@] == Json::Text(
                if task_type == 0 {
                    "task"@
                } else if task_type == 1 {
                    "project"@
                } else if task_type == 2 {
                    "heading"@
                } else {
                    "unknown"@
                },
            )
            &&& m.contains_key("tags"@)
            &&& m["tags"@] is List
            &&& (m["tags"@] matches Json::List(l) ==> l.len() == present_titles(tags).len()
                && forall|i: int|
                0 <= i < l.len() ==> #[trigger] l[i] == Json::Text(present_titles(tags)[i]))
            &&& m.contains_key("checklistItems"@)
            &&& m["checklistItems"@] is List
            &&& (m["checklistItems"@] matches Json::List(c) ==> c.len() == items.len()
                && forall|i: int|
                0 <= i < c.len() ==> #[trigger] c[i] == Json::Record(
                    seq![
                        ("completed"@, Json::Bool(items[i].status == 3)),
                        ("title"@, Json::Text(items[i].title@)),
                    ],
                ))
            &&& forall|k: Seq<char>|
                k != "notes"@ && k != "type"@ && k != "tags"@ && k != "checklistItems"@ ==> (
                #[trigger] m.contains_key(k) <==> base.contains_key(k)) && (base.contains_key(k)
                ==> m[k] == base[k])
        }),
{
    reveal_field_names();
}

/// Law: when every tag row was read, the titles taken are the tags' own,
/// in order; and then the tags text of a row, split on commas, gives the
/// titles back when none of them holds a comma.
pub proof fn lemma_tags_text_splits_back(tags: Seq<Option<String>>)
    requires
        tags.len() > 0,
        forall|i: int| 0 <= i < tags.len() ==> (#[trigger] tags[i]) is Some,
        forall|i: int, j: int|
            0 <= i < tags.len() && 0 <= j < tags[i]->Some_0@.len() ==> #[trigger] tags[i]->Some_0@[j]
                != ',',
    ensures
        present_titles(tags) == tags.map_values(|o: Option<String>| o->Some_0@),
        split_on(join(present_titles(tags), ","@), ',') == tags.map_values(
            |o: Option<String>| o->Some_0@,
        ),
{
    lemma_present_titles_all_read(tags);
    reveal_strlit(",");
    assert(","@ =~= seq![',']);
    let titles = tags.map_values(|o: Option<String>| o->Some_0@);
    assert forall|i: int, j: int| 0 <= i < titles.len() && 0 <= j < titles[i].len() implies #[trigger] titles[i][j] != ',' by {
        assert(titles[i] == tags[i]->Some_0@);
    }
    crate::text::lemma_split_join_char(titles, ',');
}

proof fn lemma_present_titles_all_read(tags: Seq<Option<String>>)
    requires
        forall|i: int| 0 <= i < tags.len() ==> (#[trigger] tags[i]) is Some,
    ensures
        present_titles(tags) == tags.map_values(|o: Option<String>| o->Some_0@),
    decreases tags.len(),
{
    if tags.len() > 0 {
        let front = tags.drop_last();
        assert forall|i: int| 0 <= i < front.len() implies (#[trigger] front[i]) is Some by {
            assert(front[i] == tags[i]);
        }
        lemma_present_titles_all_read(front);
        assert(tags.last() is Some);
        assert(tags.map_values(|o: Option<String>| o->Some_0@) =~= front.map_values(
            |o: Option<String>| o->Some_0@,
        ).push(tags.last()->Some_0@));
    } else {
        assert(tags.map_values(|o: Option<String>| o->Some_0@) =~= Seq::<Seq<char>>::empty());
    }
}

} // verus!
