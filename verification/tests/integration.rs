//! The read commands end to end against a fixture database: the library's
//! queries run with rusqlite, the rows built and rendered by the library.

use rusqlite::types::ToSql;
use rusqlite::{Connection, OpenFlags, OptionalExtension};
use serde_json::Value as JsonValue;
type JsonMap = serde_json::Map<String, JsonValue>;
use tdo::cli::{default_fields, Cli, Command, ProjectCommand};
use tdo::db::{open_action, OpenAction, OpenOutcome};
use tdo::error::TdoError;
use tdo::json::Value;
use tdo::model::{ChecklistItem, KeyValue, Row};
use tdo::output::{kv_tsv_output, show_tsv_output, tsv_output};
use tdo::queries::{self, TaskData};

// ── Fixture ──

fn create_fixture_db(name: &str) -> String {
    let path = format!("/tmp/tdo-test-{name}.sqlite");
    let conn = Connection::open(&path).expect("failed to create fixture db");
    conn.execute_batch(
        "
        DROP TABLE IF EXISTS TMArea;
        DROP TABLE IF EXISTS TMTag;
        DROP TABLE IF EXISTS TMTaskTag;
        DROP TABLE IF EXISTS TMChecklistItem;
        DROP TABLE IF EXISTS TMTask;
        CREATE TABLE TMArea (uuid TEXT PRIMARY KEY, title TEXT, visible INTEGER, 'index' INTEGER);
        CREATE TABLE TMTag (uuid TEXT PRIMARY KEY, title TEXT, shortcut TEXT, parent TEXT, 'index' INTEGER);
        CREATE TABLE TMTaskTag (tasks TEXT NOT NULL, tags TEXT NOT NULL);
        CREATE TABLE TMChecklistItem (uuid TEXT PRIMARY KEY, title TEXT, status INTEGER, 'index' INTEGER, task TEXT);
        CREATE TABLE TMTask (
            uuid TEXT PRIMARY KEY, type INTEGER, status INTEGER, stopDate REAL, trashed INTEGER,
            title TEXT, notes TEXT, start INTEGER, startDate INTEGER, deadline INTEGER,
            'index' INTEGER, todayIndex INTEGER, todayIndexReferenceDate INTEGER, area TEXT, project TEXT,
            openUntrashedLeafActionsCount INTEGER, checklistItemsCount INTEGER,
            openChecklistItemsCount INTEGER
        );
        ",
    )
    .expect("failed to create schema");
    conn.execute(
        "INSERT INTO TMArea (uuid, title, visible, 'index') VALUES (?1, ?2, ?3, ?4)",
        ("area-work-1", "Work", 1, 0),
    )
    .unwrap();
    conn.execute(
        "INSERT INTO TMTag (uuid, title, shortcut, parent, 'index') VALUES (?1, ?2, ?3, ?4, ?5)",
        ("tag-urgent-1", "urgent", "u", Option::<String>::None, 0),
    )
    .unwrap();
    conn.execute(
        "INSERT INTO TMTag (uuid, title, shortcut, parent, 'index') VALUES (?1, ?2, ?3, ?4, ?5)",
        ("tag-home-1", "home", Option::<String>::None, Option::<String>::None, 1),
    )
    .unwrap();
    conn.execute(
        "INSERT INTO TMTask (uuid, type, status, trashed, title, start, 'index', area, \
         openUntrashedLeafActionsCount) VALUES (?1, 1, 0, 0, ?2, 1, 0, ?3, 2)",
        ("project-test-1", "Test Project", "area-work-1"),
    )
    .unwrap();
    conn.execute(
        "INSERT INTO TMTask (uuid, type, status, trashed, title, start, 'index') VALUES (?1, 0, 0, 0, ?2, 0, 0)",
        ("task-inbox-1", "Inbox task"),
    )
    .unwrap();
    conn.execute(
        "INSERT INTO TMTask (uuid, type, status, trashed, title, start, todayIndex, 'index') VALUES (?1, 0, 0, 0, ?2, 1, 1, 1)",
        ("task-today-1", "Today task"),
    )
    .unwrap();
    conn.execute(
        "INSERT INTO TMTask (uuid, type, status, trashed, title, start, todayIndex, 'index') VALUES (?1, 0, 0, 0, ?2, 1, 2, 2)",
        ("task-today-tagged-1", "Today tagged task"),
    )
    .unwrap();
    conn.execute(
        "INSERT INTO TMTaskTag (tasks, tags) VALUES (?1, ?2)",
        ("task-today-tagged-1", "tag-urgent-1"),
    )
    .unwrap();
    conn.execute(
        "INSERT INTO TMTask (uuid, type, status, trashed, title, start, todayIndex, 'index', project) VALUES (?1, 0, 0, 0, ?2, 1, 3, 3, ?3)",
        ("task-today-project-1", "Today project task", "project-test-1"),
    )
    .unwrap();
    // A second open task of the project, deferred to someday.
    conn.execute(
        "INSERT INTO TMTask (uuid, type, status, trashed, title, start, 'index', project) VALUES (?1, 0, 0, 0, ?2, 2, 11, ?3)",
        ("task-project-child-1", "Project child task", "project-test-1"),
    )
    .unwrap();
    let upcoming_date: i64 = (2025_i64 << 16) | (12 << 12) | (15 << 7);
    conn.execute(
        "INSERT INTO TMTask (uuid, type, status, trashed, title, start, startDate, 'index') VALUES (?1, 0, 0, 0, ?2, 1, ?3, 4)",
        ("task-upcoming-1", "Upcoming task", upcoming_date),
    )
    .unwrap();
    conn.execute(
        "INSERT INTO TMTask (uuid, type, status, trashed, title, start, 'index') VALUES (?1, 0, 0, 0, ?2, 1, 5)",
        ("task-anytime-1", "Anytime task"),
    )
    .unwrap();
    conn.execute(
        "INSERT INTO TMTask (uuid, type, status, trashed, title, start, 'index') VALUES (?1, 0, 0, 0, ?2, 2, 6)",
        ("task-someday-1", "Someday task"),
    )
    .unwrap();
    conn.execute(
        "INSERT INTO TMTask (uuid, type, status, trashed, title, start, 'index', stopDate) VALUES (?1, 0, 3, 0, ?2, 1, 7, ?3)",
        ("task-completed-1", "Completed task", 1700000000.0_f64),
    )
    .unwrap();
    conn.execute(
        "INSERT INTO TMTask (uuid, type, status, trashed, title, start, 'index', stopDate) VALUES (?1, 0, 3, 0, ?2, 1, 8, ?3)",
        ("task-completed-2", "Older completed task", 1690000000.0_f64),
    )
    .unwrap();
    conn.execute(
        "INSERT INTO TMTask (uuid, type, status, trashed, title, start, 'index', checklistItemsCount, openChecklistItemsCount) VALUES (?1, 0, 0, 0, ?2, 1, 9, 2, 1)",
        ("task-checklist-1", "Task with checklist"),
    )
    .unwrap();
    conn.execute(
        "INSERT INTO TMChecklistItem (uuid, title, status, task, 'index') VALUES (?1, ?2, 0, ?3, 0)",
        ("cl-1", "Step 1", "task-checklist-1"),
    )
    .unwrap();
    conn.execute(
        "INSERT INTO TMChecklistItem (uuid, title, status, task, 'index') VALUES (?1, ?2, 3, ?3, 1)",
        ("cl-2", "Step 2", "task-checklist-1"),
    )
    .unwrap();
    let deadline_date: i64 = (2025_i64 << 16) | (6 << 12) | (30 << 7);
    conn.execute(
        "INSERT INTO TMTask (uuid, type, status, trashed, title, start, deadline, 'index') VALUES (?1, 0, 0, 0, ?2, 0, ?3, 10)",
        ("task-deadline-1", "Task with deadline", deadline_date),
    )
    .unwrap();
    path
}

// ── The read path, as the program runs it ──

fn open_db(path: &str) -> Result<Connection, TdoError> {
    let flags = OpenFlags::SQLITE_OPEN_READ_ONLY | OpenFlags::SQLITE_OPEN_NO_MUTEX;
    let mut attempt: u32 = 0;
    loop {
        let result = Connection::open_with_flags(path, flags)
            .and_then(|conn| conn.execute_batch("SELECT 1").map(|()| conn));
        let outcome = match &result {
            Ok(_) => OpenOutcome::Ready,
            Err(rusqlite::Error::SqliteFailure(e, _))
                if e.code == rusqlite::ErrorCode::DatabaseBusy
                    || e.code == rusqlite::ErrorCode::DatabaseLocked =>
            {
                OpenOutcome::Locked
            }
            Err(_) => OpenOutcome::Failed,
        };
        match open_action(attempt, outcome) {
            OpenAction::Use => return result.map_err(TdoError::Sqlite),
            OpenAction::Retry => attempt += 1,
            OpenAction::GiveUpLocked => return Err(TdoError::DbLocked),
            OpenAction::Fail => return Err(TdoError::Sqlite(result.err().unwrap())),
        }
    }
}

fn tag_rows(conn: &Connection, uuid: &str) -> Result<Vec<Option<String>>, TdoError> {
    let mut stmt = conn.prepare_cached(queries::TASK_TAGS_SQL)?;
    let tags: Vec<Option<String>> = stmt
        .query_map([uuid], |row| row.get::<_, String>(0))?
        .map(|r| r.ok())
        .collect();
    Ok(tags)
}

fn get_tags(conn: &Connection, uuid: &str) -> Result<String, TdoError> {
    Ok(queries::tags_text(&tag_rows(conn, uuid)?))
}

type Record = (String, String, Option<String>, Option<String>, Option<i64>, Option<i64>, Option<f64>, Option<i64>);

fn read_task(row: &rusqlite::Row<'_>) -> rusqlite::Result<Record> {
    Ok((row.get(0)?, row.get(1)?, row.get(2)?, row.get(3)?, row.get(4)?, row.get(5)?, row.get(6)?, row.get(7)?))
}

fn to_row(conn: &Connection, r: Record) -> Result<Row, TdoError> {
    let (uuid, title, project_title, area_title, start_date, deadline, stop, status) = r;
    let tags = get_tags(conn, &uuid)?;
    Ok(queries::task_row(
        &uuid,
        TaskData { title, project_title, area_title, start_date, deadline, stop_date_bits: stop.map(f64::to_bits), status },
        tags,
    ))
}

fn query_tasks(conn: &Connection, sql: &str, params: &[&dyn ToSql]) -> Result<Vec<Row>, TdoError> {
    let mut stmt = conn.prepare(sql)?;
    let records: Vec<rusqlite::Result<Record>> = stmt.query_map(params, read_task)?.collect();
    let mut out = Vec::new();
    for r in records {
        out.push(to_row(conn, r?)?);
    }
    Ok(out)
}

fn list(conn: &Connection, command: &Command) -> Result<Vec<Row>, TdoError> {
    match command {
        Command::Inbox => query_tasks(conn, queries::INBOX_SQL, &[]),
        Command::Today => query_tasks(conn, queries::TODAY_SQL, &[]),
        Command::Upcoming => query_tasks(conn, queries::UPCOMING_SQL, &[]),
        Command::Anytime => {
            let secs = std::time::SystemTime::now()
                .duration_since(std::time::UNIX_EPOCH)
                .unwrap()
                .as_secs() as i64;
            let today = tdo::dates::packed_date_from_unix_seconds(secs);
            query_tasks(conn, queries::ANYTIME_SQL, &[&today as &dyn ToSql])
        }
        Command::Someday => query_tasks(conn, queries::SOMEDAY_SQL, &[]),
        Command::Logbook { limit } => query_tasks(conn, queries::LOGBOOK_SQL, &[limit as &dyn ToSql]),
        Command::Projects => {
            let mut stmt = conn.prepare(queries::PROJECTS_SQL)?;
            let rows: Vec<rusqlite::Result<(String, String, Option<String>, Option<i64>, Option<i64>)>> = stmt
                .query_map([], |r| Ok((r.get(0)?, r.get(1)?, r.get(2)?, r.get(3)?, r.get(4)?)))?
                .collect();
            let mut out = Vec::new();
            for r in rows {
                let (uuid, title, area, deadline, open) = r?;
                let tags = get_tags(conn, &uuid)?;
                out.push(queries::project_row(uuid, title, area, deadline, open, tags));
            }
            Ok(out)
        }
        Command::Areas => {
            let mut stmt = conn.prepare(queries::AREAS_SQL)?;
            let rows: Vec<rusqlite::Result<(String, String)>> =
                stmt.query_map([], |r| Ok((r.get(0)?, r.get(1)?)))?.collect();
            let mut out = Vec::new();
            for r in rows {
                let (u, t) = r?;
                out.push(queries::area_row(u, t));
            }
            Ok(out)
        }
        Command::Tags => {
            let mut stmt = conn.prepare(queries::TAGS_SQL)?;
            let rows: Vec<rusqlite::Result<(String, String, Option<String>, Option<String>)>> = stmt
                .query_map([], |r| Ok((r.get(0)?, r.get(1)?, r.get(2)?, r.get(3)?)))?
                .collect();
            let mut out = Vec::new();
            for r in rows {
                let (u, t, s, p) = r?;
                out.push(queries::tag_row(u, t, s, p));
            }
            Ok(out)
        }
        Command::Search { query } => {
            let pattern = queries::search_pattern(query);
            query_tasks(conn, queries::SEARCH_SQL, &[&pattern as &dyn ToSql])
        }
        Command::Project { command: ProjectCommand::Tasks { project } } => {
            let by_title: Option<String> =
                conn.query_row(queries::PROJECT_BY_TITLE_SQL, [project], |r| r.get(0)).optional()?;
            let by_uuid: Option<String> = match by_title {
                Some(_) => None,
                None => conn.query_row(queries::PROJECT_BY_UUID_SQL, [project], |r| r.get(0)).optional()?,
            };
            let uuid = queries::resolve_project(project, by_title, by_uuid)?;
            query_tasks(conn, queries::PROJECT_TASKS_SQL, &[&uuid as &dyn ToSql])
        }
        _ => unreachable!(),
    }
}

fn show(conn: &Connection, id: &str) -> Result<Row, TdoError> {
    let mut stmt = conn.prepare(queries::SHOW_TASK_SQL)?;
    let task = stmt.query_row([id], read_task).optional()?;
    let task_row = match task {
        Some(record) => {
            let base = to_row(conn, record)?;
            let notes: Option<String> = conn.query_row(queries::NOTES_SQL, [id], |r| r.get(0))?;
            let kind: i64 = conn.query_row(queries::TYPE_SQL, [id], |r| r.get(0))?;
            let mut cl = conn.prepare(queries::CHECKLIST_SQL)?;
            let items: Vec<ChecklistItem> = cl
                .query_map([id], |r| Ok(ChecklistItem { title: r.get(0)?, status: r.get(1)? }))?
                .filter_map(|r| r.ok())
                .collect();
            let tags = tag_rows(conn, id)?;
            Some(queries::show_task_row(base, notes, kind, &tags, items))
        }
        None => None,
    };
    let area = match task_row {
        Some(_) => None,
        None => conn.query_row(queries::SHOW_AREA_SQL, [id], |r| Ok((r.get(0)?, r.get(1)?))).optional()?,
    };
    queries::show_item(id, task_row, area)
}

fn stats(conn: &Connection) -> Result<Vec<KeyValue>, TdoError> {
    let mut counts = Vec::new();
    for sql in queries::STATS_SQL {
        counts.push(conn.query_row(sql, [], |r| r.get::<_, i64>(0))?);
    }
    Ok(queries::stats_kvs(&counts))
}

fn to_serde(v: &Value) -> JsonValue {
    match v {
        Value::Null => JsonValue::Null,
        Value::Bool(b) => JsonValue::Bool(*b),
        Value::Number(n) => JsonValue::Number((*n).into()),
        Value::String(s) => JsonValue::String(s.clone()),
        Value::Array(items) => JsonValue::Array(items.iter().map(to_serde).collect()),
        Value::Object(entries) => {
            JsonValue::Object(entries.iter().map(|(k, v)| (k.clone(), to_serde(v))).collect())
        }
    }
}

fn row_object(row: &Row) -> JsonMap {
    row.entries().iter().map(|(k, v)| (k.clone(), to_serde(v))).collect()
}

fn parse_args(args: &[&str]) -> Cli {
    let mut json = false;
    let mut no_header = false;
    let mut fields = None;
    let mut rest: Vec<String> = Vec::new();
    let mut i = 0;
    while i < args.len() {
        match args[i] {
            "--json" => json = true,
            "--no-header" => no_header = true,
            "--fields" => {
                i += 1;
                fields = Some(args[i].to_string());
            }
            other => rest.push(other.to_string()),
        }
        i += 1;
    }
    let command = match rest[0].as_str() {
        "inbox" => Command::Inbox,
        "today" => Command::Today,
        "upcoming" => Command::Upcoming,
        "anytime" => Command::Anytime,
        "someday" => Command::Someday,
        "logbook" => {
            let limit = if rest.len() > 2 && rest[1] == "--limit" { rest[2].parse().unwrap() } else { 50 };
            Command::Logbook { limit }
        }
        "projects" => Command::Projects,
        "areas" => Command::Areas,
        "tags" => Command::Tags,
        "show" => Command::Show { id: rest[1].clone() },
        "search" => Command::Search { query: rest[1].clone() },
        "stats" => Command::Stats,
        "project" => Command::Project { command: ProjectCommand::Tasks { project: rest[2].clone() } },
        other => panic!("unknown command {other}"),
    };
    Cli { db_path: None, json, fields, no_header, auth_token: None, command }
}

fn run_read(db_path: &str, cli: &Cli) -> Result<String, TdoError> {
    let conn = open_db(db_path)?;
    Ok(match &cli.command {
        Command::Show { id } => {
            let row = show(&conn, id)?;
            if cli.json {
                format!("{}\n", serde_json::to_string_pretty(&row_object(&row))?)
            } else {
                show_tsv_output(&row, cli.header())
            }
        }
        Command::Stats => {
            let kvs = stats(&conn)?;
            if cli.json {
                let map: JsonMap =
                    kvs.iter().map(|kv| (kv.key.clone(), to_serde(&kv.value))).collect();
                format!("{}\n", serde_json::to_string_pretty(&map)?)
            } else {
                kv_tsv_output(&kvs, cli.header())
            }
        }
        command => {
            let rows = list(&conn, command)?;
            if cli.json {
                let out: Vec<JsonMap> = rows.iter().map(row_object).collect();
                format!("{}\n", serde_json::to_string_pretty(&out)?)
            } else {
                let defaults = default_fields(command);
                tsv_output(&rows, &cli.tsv_config(&defaults))
            }
        }
    })
}

/// Runs a read command as `tdo --db-path <db_path> <args>` would: stdout,
/// stderr and success.
fn run_tdo(db_path: &str, args: &[&str]) -> (String, String, bool) {
    let cli = parse_args(args);
    match run_read(db_path, &cli) {
        Ok(out) => (out, String::new(), true),
        Err(e) => (String::new(), format!("error: {}\n", e.message()), false),
    }
}

// ── Inbox ──

#[test]
fn test_inbox_tsv() {
    let db = create_fixture_db("inbox_tsv");
    let (out, _, ok) = run_tdo(&db, &["inbox"]);
    assert!(ok);
    let lines: Vec<&str> = out.lines().collect();
    assert_eq!(lines[0], "id\ttitle\ttags\tdeadline");
    // Fixture has 1 inbox task: "Inbox task"
    assert!(lines.len() >= 2, "expected at least header + 1 row");
    assert!(lines[1].contains("Inbox task"), "expected inbox task, got: {}", lines[1]);
}

#[test]
fn test_inbox_json() {
    let db = create_fixture_db("inbox_json");
    let (out, _, ok) = run_tdo(&db, &["--json", "inbox"]);
    assert!(ok);
    let parsed: JsonValue = serde_json::from_str(&out).expect("invalid JSON");
    let arr = parsed.as_array().unwrap();
    assert!(!arr.is_empty());
    assert_eq!(arr[0]["title"], "Inbox task");
}

#[test]
fn test_today_tsv() {
    let db = create_fixture_db("today_tsv");
    let (out, _, ok) = run_tdo(&db, &["today"]);
    assert!(ok);
    let lines: Vec<&str> = out.lines().collect();
    assert_eq!(lines[0], "id\ttitle\tproject\ttags\tdeadline");
    assert!(lines.iter().any(|l| l.contains("Today task")));
}

#[test]
fn test_today_json() {
    let db = create_fixture_db("today_json");
    let (out, _, ok) = run_tdo(&db, &["--json", "today"]);
    assert!(ok);
    let parsed: JsonValue = serde_json::from_str(&out).expect("invalid JSON");
    let arr = parsed.as_array().unwrap();
    assert!(arr.iter().any(|item| item["title"] == "Today task"));
}

#[test]
fn test_upcoming_tsv() {
    let db = create_fixture_db("upcoming_tsv");
    let (out, _, ok) = run_tdo(&db, &["upcoming"]);
    assert!(ok);
    let lines: Vec<&str> = out.lines().collect();
    assert_eq!(lines[0], "id\ttitle\tproject\ttags\tstartDate\tdeadline");
    assert!(lines.iter().any(|l| l.contains("Upcoming task")));
}

#[test]
fn test_anytime_tsv() {
    let db = create_fixture_db("anytime_tsv");
    let (out, _, ok) = run_tdo(&db, &["anytime"]);
    assert!(ok);
    let lines: Vec<&str> = out.lines().collect();
    assert_eq!(lines[0], "id\ttitle\tproject\tarea\ttags\tdeadline");
    assert!(lines.iter().any(|l| l.contains("Anytime task")));
}

#[test]
fn test_someday_tsv() {
    let db = create_fixture_db("someday_tsv");
    let (out, _, ok) = run_tdo(&db, &["someday"]);
    assert!(ok);
    let lines: Vec<&str> = out.lines().collect();
    assert_eq!(lines[0], "id\ttitle\tproject\ttags");
    assert!(lines.iter().any(|l| l.contains("Someday task")));
}

#[test]
fn test_logbook_tsv() {
    let db = create_fixture_db("logbook_tsv");
    let (out, _, ok) = run_tdo(&db, &["logbook"]);
    assert!(ok);
    let lines: Vec<&str> = out.lines().collect();
    assert_eq!(lines[0], "id\ttitle\tproject\tcompletedDate");
    assert!(lines.iter().any(|l| l.contains("Completed task")));
}

#[test]
fn test_logbook_limit() {
    let db = create_fixture_db("logbook_limit");
    let (out, _, ok) = run_tdo(&db, &["logbook", "--limit", "1"]);
    assert!(ok);
    let lines: Vec<&str> = out.lines().collect();
    assert_eq!(lines.len(), 2); // header + 1 row
}

#[test]
fn test_projects_tsv() {
    let db = create_fixture_db("projects_tsv");
    let (out, _, ok) = run_tdo(&db, &["projects"]);
    assert!(ok);
    let lines: Vec<&str> = out.lines().collect();
    assert_eq!(lines[0], "id\ttitle\tarea\ttags\tdeadline\topenTasks");
    assert!(lines.iter().any(|l| l.contains("Test Project")));
}

#[test]
fn test_areas_tsv() {
    let db = create_fixture_db("areas_tsv");
    let (out, _, ok) = run_tdo(&db, &["areas"]);
    assert!(ok);
    let lines: Vec<&str> = out.lines().collect();
    assert_eq!(lines[0], "id\ttitle");
    assert!(lines.iter().any(|l| l.contains("Work")));
}

#[test]
fn test_tags_tsv() {
    let db = create_fixture_db("tags_tsv");
    let (out, _, ok) = run_tdo(&db, &["tags"]);
    assert!(ok);
    let lines: Vec<&str> = out.lines().collect();
    assert_eq!(lines[0], "id\ttitle\tshortcut\tparent");
    assert!(lines.iter().any(|l| l.contains("urgent")));
}

#[test]
fn test_show_tsv() {
    let db = create_fixture_db("show_tsv");
    let (out, _, ok) = run_tdo(&db, &["show", "task-today-1"]);
    assert!(ok);
    assert!(out.contains("Today task"));
    assert!(out.contains("task"));
}

#[test]
fn test_show_json() {
    let db = create_fixture_db("show_json");
    let (out, _, ok) = run_tdo(&db, &["--json", "show", "task-today-1"]);
    assert!(ok);
    let parsed: JsonValue = serde_json::from_str(&out).expect("invalid JSON");
    assert_eq!(parsed["title"], "Today task");
    assert_eq!(parsed["type"], "task");
}

#[test]
fn test_show_with_checklist() {
    let db = create_fixture_db("show_with_checklist");
    let (out, _, ok) = run_tdo(&db, &["--json", "show", "task-checklist-1"]);
    assert!(ok);
    let parsed: JsonValue = serde_json::from_str(&out).expect("invalid JSON");
    let items = parsed["checklistItems"].as_array().unwrap();
    assert_eq!(items.len(), 2);
    assert_eq!(items[0]["title"], "Step 1");
    assert_eq!(items[0]["completed"], false);
    assert_eq!(items[1]["title"], "Step 2");
    assert_eq!(items[1]["completed"], true);
}

#[test]
fn test_show_not_found() {
    let db = create_fixture_db("show_not_found");
    let (_, stderr, ok) = run_tdo(&db, &["show", "nonexistent-id"]);
    assert!(!ok);
    assert!(stderr.contains("not found"), "expected 'not found' in: {stderr}");
}

#[test]
fn test_search_tsv() {
    let db = create_fixture_db("search_tsv");
    let (out, _, ok) = run_tdo(&db, &["search", "Today"]);
    assert!(ok);
    let lines: Vec<&str> = out.lines().collect();
    assert!(lines[0].contains("id\ttitle"));
    assert!(lines.iter().any(|l| l.contains("Today task")));
}

#[test]
fn test_stats_tsv() {
    let db = create_fixture_db("stats_tsv");
    let (out, _, ok) = run_tdo(&db, &["stats"]);
    assert!(ok);
    assert!(out.contains("inbox"));
    assert!(out.contains("today"));
    assert!(out.contains("projects"));
}

#[test]
fn test_stats_json() {
    let db = create_fixture_db("stats_json");
    let (out, _, ok) = run_tdo(&db, &["--json", "stats"]);
    assert!(ok);
    let parsed: JsonValue = serde_json::from_str(&out).expect("invalid JSON");
    assert!(parsed["inbox"].is_number());
    assert!(parsed["today"].is_number());
}

#[test]
fn test_no_header() {
    let db = create_fixture_db("no_header");
    let (out, _, ok) = run_tdo(&db, &["--no-header", "inbox"]);
    assert!(ok);
    // First line should NOT be the header
    let first_line = out.lines().next().unwrap_or("");
    assert!(!first_line.starts_with("id\t"), "header should be suppressed");
}

#[test]
fn test_fields_override() {
    let db = create_fixture_db("fields_override");
    let (out, _, ok) = run_tdo(&db, &["--fields", "id,title", "today"]);
    assert!(ok);
    let lines: Vec<&str> = out.lines().collect();
    assert_eq!(lines[0], "id\ttitle");
}

#[test]
fn test_missing_db() {
    let (_, stderr, ok) = run_tdo("/nonexistent/path.sqlite", &["today"]);
    assert!(!ok);
    assert!(stderr.contains("error"), "expected error in: {stderr}");
}

#[test]
fn test_tags_field_resolution() {
    let db = create_fixture_db("tags_field_resolution");
    let (out, _, ok) = run_tdo(&db, &["--json", "today"]);
    assert!(ok);
    let parsed: JsonValue = serde_json::from_str(&out).expect("invalid JSON");
    let arr = parsed.as_array().unwrap();
    let tagged = arr.iter().find(|item| item["title"] == "Today tagged task");
    assert!(tagged.is_some(), "expected 'Today tagged task' in today view");
    assert_eq!(tagged.unwrap()["tags"], "urgent");
}

#[test]
fn test_project_field_resolution() {
    let db = create_fixture_db("project_field_resolution");
    let (out, _, ok) = run_tdo(&db, &["--json", "today"]);
    assert!(ok);
    let parsed: JsonValue = serde_json::from_str(&out).expect("invalid JSON");
    let arr = parsed.as_array().unwrap();
    let in_project = arr.iter().find(|item| item["title"] == "Today project task");
    assert!(in_project.is_some(), "expected 'Today project task'");
    assert_eq!(in_project.unwrap()["project"], "Test Project");
}

#[test]
fn test_db_path_override() {
    let db = create_fixture_db("db_path_override");
    let (out, _, ok) = run_tdo(&db, &["stats"]);
    assert!(ok);
    assert!(out.contains("inbox"));
}

#[test]
fn test_fields_id() {
    let db = create_fixture_db("fields_id");
    let (out, _, ok) = run_tdo(&db, &["--json", "inbox"]);
    assert!(ok);
    let parsed: JsonValue = serde_json::from_str(&out).expect("invalid JSON");
    let arr = parsed.as_array().unwrap();
    assert_eq!(arr[0]["id"], "task-inbox-1");
}

#[test]
fn test_fields_dates() {
    let db = create_fixture_db("fields_dates");
    let (out, _, ok) = run_tdo(&db, &["--json", "upcoming"]);
    assert!(ok);
    let parsed: JsonValue = serde_json::from_str(&out).expect("invalid JSON");
    let arr = parsed.as_array().unwrap();
    let task = arr.iter().find(|item| item["title"] == "Upcoming task").unwrap();
    assert_eq!(task["startDate"], "2025-12-15");
}

#[test]
fn test_fields_area() {
    let db = create_fixture_db("fields_area");
    let (out, _, ok) = run_tdo(&db, &["--json", "projects"]);
    assert!(ok);
    let parsed: JsonValue = serde_json::from_str(&out).expect("invalid JSON");
    let arr = parsed.as_array().unwrap();
    let proj = arr.iter().find(|item| item["title"] == "Test Project").unwrap();
    assert_eq!(proj["area"], "Work");
}

#[test]
fn test_project_tasks_by_name() {
    let db = create_fixture_db("project_tasks_by_name");
    let (out, _, ok) = run_tdo(&db, &["project", "tasks", "Test Project"]);
    assert!(ok);
    let lines: Vec<&str> = out.lines().collect();
    assert_eq!(lines[0], "id\ttitle\ttags\tstartDate\tdeadline");
    assert!(lines.iter().any(|l| l.contains("Today project task")));
    assert!(lines.iter().any(|l| l.contains("Project child task")));
}

#[test]
fn test_project_tasks_by_uuid() {
    let db = create_fixture_db("project_tasks_by_uuid");
    let (out, _, ok) = run_tdo(&db, &["project", "tasks", "project-test-1"]);
    assert!(ok);
    let lines: Vec<&str> = out.lines().collect();
    assert!(lines.iter().any(|l| l.contains("Today project task")));
}

#[test]
fn test_project_tasks_json() {
    let db = create_fixture_db("project_tasks_json");
    let (out, _, ok) = run_tdo(&db, &["--json", "project", "tasks", "Test Project"]);
    assert!(ok);
    let parsed: JsonValue = serde_json::from_str(&out).expect("invalid JSON");
    let arr = parsed.as_array().unwrap();
    assert!(arr.iter().any(|item| item["title"] == "Today project task"));
    assert!(arr.iter().any(|item| item["title"] == "Project child task"));
}

#[test]
fn test_project_tasks_not_found() {
    let db = create_fixture_db("project_tasks_not_found");
    let (_, stderr, ok) = run_tdo(&db, &["project", "tasks", "Nonexistent Project"]);
    assert!(!ok);
    assert!(stderr.contains("not found"), "expected 'not found' in: {stderr}");
}

// ── Exact outputs of the fixture ──

#[test]
fn logbook_rows_are_dated_and_ordered() {
    let db = create_fixture_db("logbook_exact");
    let (out, _, ok) = run_tdo(&db, &["logbook"]);
    assert!(ok);
    assert_eq!(
        out,
        "id\ttitle\tproject\tcompletedDate\n\
         task-completed-1\tCompleted task\t\t2023-11-14\n\
         task-completed-2\tOlder completed task\t\t2023-07-22\n"
    );
}

#[test]
fn show_tsv_lists_fields_in_key_order() {
    let db = create_fixture_db("show_exact");
    let (out, _, ok) = run_tdo(&db, &["show", "task-checklist-1"]);
    assert!(ok);
    assert_eq!(
        out,
        "key\tvalue\n\
         area\t\n\
         checklistItems\t{\"completed\":false,\"title\":\"Step 1\"},{\"completed\":true,\"title\":\"Step 2\"}\n\
         completedDate\t\n\
         deadline\t\n\
         id\ttask-checklist-1\n\
         notes\t\n\
         project\t\n\
         startDate\t\n\
         status\topen\n\
         tags\t\n\
         title\tTask with checklist\n\
         type\ttask\n"
    );
}

#[test]
fn show_area_and_stats_exact() {
    let db = create_fixture_db("show_area_stats");
    let (out, _, ok) = run_tdo(&db, &["--json", "show", "area-work-1"]);
    assert!(ok);
    let parsed: JsonValue = serde_json::from_str(&out).unwrap();
    assert_eq!(parsed["type"], "area");
    assert_eq!(parsed["title"], "Work");
    let (out, _, ok) = run_tdo(&db, &["stats"]);
    assert!(ok);
    assert_eq!(
        out,
        "key\tvalue\ninbox\t2\ntoday\t6\nupcoming\t1\nsomeday\t2\ncompleted\t2\ncancelled\t0\ntrashed\t0\nprojects\t1\nareas\t1\ntags\t2\n"
    );
}

#[test]
fn fields_are_trimmed_and_missing_ones_empty() {
    let db = create_fixture_db("fields_trim");
    let (out, _, ok) = run_tdo(&db, &["--no-header", "--fields", " id , nothing ,tags", "today"]);
    assert!(ok);
    assert!(out.lines().any(|l| l == "task-today-tagged-1\t\turgent"));
}

#[test]
fn show_json_has_tag_and_checklist_arrays() {
    let db = create_fixture_db("show_arrays");
    let (out, _, ok) = run_tdo(&db, &["--json", "show", "task-today-tagged-1"]);
    assert!(ok);
    let parsed: JsonValue = serde_json::from_str(&out).unwrap();
    assert_eq!(parsed["tags"], JsonValue::Array(vec![JsonValue::String("urgent".to_string())]));
    assert_eq!(parsed["checklistItems"], JsonValue::Array(vec![]));
    let (out, _, ok) = run_tdo(&db, &["show", "task-today-tagged-1"]);
    assert!(ok);
    assert!(out.lines().any(|l| l == "tags\turgent"));
    assert!(out.lines().any(|l| l == "checklistItems\t"));
}

#[test]
fn anytime_leaves_out_tasks_in_today_for_the_current_date() {
    let db = create_fixture_db("anytime_today");
    let secs = std::time::SystemTime::now()
        .duration_since(std::time::UNIX_EPOCH)
        .unwrap()
        .as_secs() as i64;
    let today = tdo::dates::packed_date_from_unix_seconds(secs);
    let old = (2020_i64 << 16) | (1 << 12) | (1 << 7);
    let conn = Connection::open(&db).unwrap();
    conn.execute(
        "INSERT INTO TMTask (uuid, type, status, trashed, title, start, todayIndex, todayIndexReferenceDate, 'index') VALUES (?1, 0, 0, 0, ?2, 1, 4, ?3, 20)",
        ("task-today-now-1", "In Today now", today),
    )
    .unwrap();
    conn.execute(
        "INSERT INTO TMTask (uuid, type, status, trashed, title, start, todayIndex, todayIndexReferenceDate, 'index') VALUES (?1, 0, 0, 0, ?2, 1, 5, ?3, 21)",
        ("task-today-old-1", "In Today long ago", old),
    )
    .unwrap();
    drop(conn);
    let (out, _, ok) = run_tdo(&db, &["anytime"]);
    assert!(ok);
    assert!(out.lines().any(|l| l.contains("Anytime task")));
    assert!(out.lines().any(|l| l.contains("In Today long ago")));
    assert!(!out.lines().any(|l| l.contains("In Today now")));
}
