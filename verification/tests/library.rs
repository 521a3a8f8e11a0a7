use tdo::cli::{
    add_output_line, confirms_install, default_fields, needs_install, plan_write, require_auth_token, skill_path,
    Cli, Command, ProjectCommand,
};
use tdo::db::{open_action, OpenAction, OpenOutcome};
use tdo::error::TdoError;
use tdo::json::{json_quote, to_json_text, Value};
use tdo::model::{ChecklistItem, KeyValue, Row};
use tdo::output::{columns, kv_tsv_output, show_tsv_output, tsv_output, Header, TsvConfig};
use tdo::queries::{
    area_row, project_row, resolve_project, search_pattern, show_item, show_task_row, stats_kvs,
    tag_row, tags_text, task_row, TaskData,
};
use tdo::text::{parse_i64_str, split_char, trim_str};

fn cli(command: Command, token: Option<&str>) -> Cli {
    Cli {
        db_path: None,
        json: false,
        fields: None,
        no_header: false,
        auth_token: token.map(|t| t.to_string()),
        command,
    }
}

fn text(v: Option<&Value>) -> Option<String> {
    match v {
        Some(Value::String(s)) => Some(s.clone()),
        _ => None,
    }
}

// ── Rows ──

#[test]
fn row_set_then_get_and_keys_sorted() {
    let mut row = Row::new();
    row.set("title", Value::String("A".to_string()));
    row.set("id", Value::String("x".to_string()));
    row.set("area", Value::Null);
    row.set("title", Value::String("B".to_string()));
    assert_eq!(row.len(), 3);
    assert_eq!(text(row.get("title")), Some("B".to_string()));
    assert!(row.get("missing").is_none());
    let keys: Vec<&str> = row.entries().iter().map(|(k, _)| k.as_str()).collect();
    assert_eq!(keys, vec!["area", "id", "title"]);
}

#[test]
fn row_keys_ordered_by_bytes() {
    let mut row = Row::new();
    for k in ["b", "B", "é", "a", "aa", ""] {
        row.set(k, Value::Null);
    }
    let keys: Vec<&str> = row.entries().iter().map(|(k, _)| k.as_str()).collect();
    assert_eq!(keys, vec!["", "B", "a", "aa", "b", "é"]);
}

#[test]
fn get_str_formats_each_kind() {
    let mut row = Row::new();
    row.set("s", Value::String("text".to_string()));
    row.set("n", Value::Number(-42));
    row.set("b", Value::Bool(true));
    row.set("z", Value::Null);
    row.set(
        "a",
        Value::Array(vec![Value::String("q\"".to_string()), Value::Number(1), Value::Null]),
    );
    row.set(
        "o",
        Value::Object(vec![("k".to_string(), Value::Bool(false))]),
    );
    assert_eq!(row.get_str("s"), "text");
    assert_eq!(row.get_str("n"), "-42");
    assert_eq!(row.get_str("b"), "true");
    assert_eq!(row.get_str("z"), "");
    assert_eq!(row.get_str("missing"), "");
    assert_eq!(row.get_str("a"), "[\"q\\\"\",1,null]");
    assert_eq!(row.get_str("o"), "{\"k\":false}");
}

// ── JSON ──

#[test]
fn json_quote_matches_serde_json() {
    for s in ["", "plain", "q\"b\\s", "tab\tnl\ncr\r", "\u{8}\u{c}\u{1}\u{1f}\u{7f}", "é日"] {
        assert_eq!(json_quote(s), serde_json::to_string(s).unwrap());
    }
    assert_eq!(json_quote("\u{1}"), "\"\\u0001\"");
}

#[test]
fn json_text_matches_serde_json() {
    let v = Value::Array(vec![
        Value::Object(vec![
            ("completed".to_string(), Value::Bool(false)),
            ("title".to_string(), Value::String("Step \"1\"".to_string())),
        ]),
        Value::Number(i64::MIN),
        Value::Null,
    ]);
    let mut object = serde_json::Map::new();
    object.insert("completed".to_string(), serde_json::Value::Bool(false));
    object.insert("title".to_string(), serde_json::Value::String("Step \"1\"".to_string()));
    let expected = serde_json::Value::Array(vec![
        serde_json::Value::Object(object),
        serde_json::Value::Number(i64::MIN.into()),
        serde_json::Value::Null,
    ]);
    assert_eq!(to_json_text(&v), expected.to_string());
}

// ── TSV ──

#[test]
fn tsv_output_with_defaults_fields_and_no_header() {
    let mut a = Row::new();
    a.set("id", Value::String("1".to_string()));
    a.set("title", Value::String("One".to_string()));
    let mut b = Row::new();
    b.set("id", Value::String("2".to_string()));
    b.set("tags", Value::String("x,y".to_string()));
    let rows = vec![a, b];
    let defaults = ["id", "title"];
    let none: Option<String> = None;
    let shown = TsvConfig { default_fields: &defaults, fields: &none, header: Header::Show };
    assert_eq!(tsv_output(&rows, &shown), "id\ttitle\n1\tOne\n2\t\n");
    let hidden = TsvConfig { default_fields: &defaults, fields: &none, header: Header::Hide };
    assert_eq!(tsv_output(&rows, &hidden), "1\tOne\n2\t\n");
    let fields = Some("tags , id".to_string());
    let picked = TsvConfig { default_fields: &defaults, fields: &fields, header: Header::Show };
    assert_eq!(columns(&picked), vec!["tags".to_string(), "id".to_string()]);
    assert_eq!(tsv_output(&rows, &picked), "tags\tid\n\t1\nx,y\t2\n");
    assert_eq!(tsv_output(&[], &shown), "id\ttitle\n");
}

#[test]
fn kv_and_show_output() {
    let kvs = vec![
        KeyValue { key: "inbox".to_string(), value: Value::Number(3) },
        KeyValue { key: "note".to_string(), value: Value::Null },
    ];
    assert_eq!(kv_tsv_output(&kvs, Header::Show), "key\tvalue\ninbox\t3\nnote\t\n");
    assert_eq!(kv_tsv_output(&kvs, Header::Hide), "inbox\t3\nnote\t\n");
    let mut row = Row::new();
    row.set("z", Value::Array(vec![Value::String("a".to_string()), Value::Null, Value::Number(2)]));
    row.set("a", Value::String("first".to_string()));
    assert_eq!(show_tsv_output(&row, Header::Show), "key\tvalue\na\tfirst\nz\ta,null,2\n");
}

// ── Row builders ──

fn data(title: &str) -> TaskData {
    TaskData {
        title: title.to_string(),
        project_title: Some("P".to_string()),
        area_title: None,
        start_date: Some((2025 << 16) | (12 << 12) | (15 << 7)),
        deadline: Some(0),
        stop_date_bits: Some(1700000000.0f64.to_bits()),
        status: Some(2),
    }
}

#[test]
fn task_row_fields() {
    let row = task_row("u-1", data("T"), "a,b".to_string());
    assert_eq!(row.get_str("id"), "u-1");
    assert_eq!(row.get_str("title"), "T");
    assert_eq!(row.get_str("tags"), "a,b");
    assert_eq!(row.get_str("project"), "P");
    assert!(matches!(row.get("area"), Some(Value::Null)));
    assert_eq!(row.get_str("startDate"), "2025-12-15");
    assert!(matches!(row.get("deadline"), Some(Value::Null)));
    assert_eq!(row.get_str("completedDate"), "2023-11-14");
    assert_eq!(row.get_str("status"), "cancelled");
    assert_eq!(row.len(), 9);
    let mut d = data("T");
    d.status = None;
    d.stop_date_bits = Some(0.0f64.to_bits());
    let row = task_row("u-2", d, String::new());
    assert!(row.get("status").is_none());
    assert!(matches!(row.get("tags"), Some(Value::Null)));
    assert!(matches!(row.get("completedDate"), Some(Value::Null)));
    for (s, name) in [(0, "open"), (3, "completed"), (7, "unknown")] {
        let mut d = data("T");
        d.status = Some(s);
        assert_eq!(task_row("u", d, String::new()).get_str("status"), name);
    }
}

#[test]
fn other_row_builders() {
    let p = project_row("p".to_string(), "Proj".to_string(), None, None, None, String::new());
    assert_eq!(p.get_str("openTasks"), "0");
    assert!(matches!(p.get("tags"), Some(Value::Null)));
    let a = area_row("a".to_string(), "Work".to_string());
    assert_eq!(a.len(), 2);
    let t = tag_row("t".to_string(), "urgent".to_string(), Some(String::new()), Some("Parent".to_string()));
    assert!(matches!(t.get("shortcut"), Some(Value::Null)));
    assert_eq!(t.get_str("parent"), "Parent");
    assert_eq!(tags_text(&[Some("a".to_string()), None, Some("b".to_string())]), "a,b");
    assert_eq!(tags_text(&[]), "");
    assert_eq!(search_pattern("x y"), "%x y%");
}

#[test]
fn show_rows_and_not_found() {
    let base = task_row("u", data("T"), String::new());
    let items = vec![
        ChecklistItem { title: "one".to_string(), status: 3 },
        ChecklistItem { title: "two".to_string(), status: 0 },
    ];
    let tags = vec![Some("a".to_string()), None, Some("b,c".to_string())];
    let row = show_task_row(base, Some(String::new()), 1, &tags, items);
    match row.get("tags") {
        Some(Value::Array(v)) => {
            assert_eq!(v.len(), 2);
            assert!(matches!(&v[0], Value::String(s) if s == "a"));
            assert!(matches!(&v[1], Value::String(s) if s == "b,c"));
        }
        _ => panic!("tags should be a list"),
    }
    assert_eq!(row.get_str("tags"), "[\"a\",\"b,c\"]");
    assert!(matches!(row.get("notes"), Some(Value::Null)));
    assert_eq!(row.get_str("type"), "project");
    assert_eq!(
        row.get_str("checklistItems"),
        "[{\"completed\":true,\"title\":\"one\"},{\"completed\":false,\"title\":\"two\"}]"
    );
    let row = show_task_row(task_row("u", data("T"), String::new()), Some("n".to_string()), 9, &[], vec![]);
    assert_eq!(row.get_str("notes"), "n");
    assert_eq!(row.get_str("type"), "unknown");
    assert!(matches!(row.get("checklistItems"), Some(Value::Array(v)) if v.is_empty()));
    assert!(matches!(row.get("tags"), Some(Value::Array(v)) if v.is_empty()));
    let area = show_item("a", None, Some(("a".to_string(), "Work".to_string()))).ok().unwrap();
    assert_eq!(area.get_str("type"), "area");
    match show_item("missing", None, None) {
        Err(e) => assert_eq!(
            e.message(),
            "Item not found: missing\nHint: use `tdo search <query>` to find items and their UUIDs."
        ),
        Ok(_) => panic!("expected not found"),
    }
}

#[test]
fn stats_and_project_resolution() {
    let kvs = stats_kvs(&[1, 2, 3, 4, 5, 6, 7, 8, 9, 10]);
    let keys: Vec<&str> = kvs.iter().map(|kv| kv.key.as_str()).collect();
    assert_eq!(
        keys,
        vec!["inbox", "today", "upcoming", "someday", "completed", "cancelled", "trashed", "projects", "areas", "tags"]
    );
    assert!(matches!(kvs[9].value, Value::Number(10)));
    assert_eq!(resolve_project("x", Some("t".to_string()), Some("u".to_string())).ok(), Some("t".to_string()));
    assert_eq!(resolve_project("x", None, Some("u".to_string())).ok(), Some("u".to_string()));
    assert!(matches!(resolve_project("x", None, None), Err(TdoError::NotFound(s)) if s == "x"));
}

// ── Command line ──

#[test]
fn write_plans_and_auth() {
    let plan = plan_write(&cli(Command::Complete { id: "abc".to_string() }, Some("tok"))).ok().unwrap();
    assert_eq!(plan.url, "things:///update?id=abc&completed=true&auth-token=tok");
    assert_eq!(plan.message, "Completed: abc");
    for command in [
        Command::Complete { id: "a".to_string() },
        Command::Cancel { id: "a".to_string() },
        Command::Move { id: "a".to_string(), to: "b".to_string() },
        Command::Update {
            id: "a".to_string(),
            title: None,
            notes: None,
            append_notes: None,
            prepend_notes: None,
            when: None,
            deadline: None,
            add_tags: None,
            list: None,
            heading: None,
        },
    ] {
        assert!(matches!(plan_write(&cli(command, None)), Err(TdoError::AuthMissing)));
    }
    let add = Command::Add {
        title: "Buy milk".to_string(),
        notes: None,
        when: Some("today".to_string()),
        deadline: None,
        tags: None,
        list: None,
        heading: None,
        checklist_items: vec![],
    };
    let plan = plan_write(&cli(add, None)).ok().unwrap();
    assert_eq!(plan.url, "things:///add?title=Buy%20milk&when=today");
    assert_eq!(plan.message, "Created todo: Buy milk");
    let project = Command::Project {
        command: ProjectCommand::Add {
            title: "P".to_string(),
            notes: None,
            when: None,
            deadline: None,
            tags: None,
            area: Some("Work".to_string()),
            todos: vec![],
        },
    };
    let plan = plan_write(&cli(project, None)).ok().unwrap();
    assert_eq!(plan.url, "things:///add-project?title=P&area=Work");
    assert_eq!(plan.message, "Created project: P");
    let moved = plan_write(&cli(Command::Move { id: "a".to_string(), to: "My P".to_string() }, Some("t"))).ok().unwrap();
    assert_eq!(moved.message, "Moved: a");
    assert!(matches!(require_auth_token(&cli(Command::Stats, None)), Err(TdoError::AuthMissing)));
}

#[test]
fn header_and_defaults() {
    let mut c = cli(Command::Today, None);
    assert!(matches!(c.header(), Header::Show));
    c.no_header = true;
    assert!(matches!(c.header(), Header::Hide));
    assert_eq!(default_fields(&Command::Today), vec!["id", "title", "project", "tags", "deadline"]);
    assert_eq!(default_fields(&Command::Logbook { limit: 5 }), vec!["id", "title", "project", "completedDate"]);
    assert_eq!(
        default_fields(&Command::Project { command: ProjectCommand::Tasks { project: "p".to_string() } }),
        vec!["id", "title", "tags", "startDate", "deadline"]
    );
}

#[test]
fn skill_helpers() {
    assert_eq!(skill_path(Some("/home/u".to_string()), ".agents/skills"), "/home/u/.agents/skills/tdo/SKILL.md");
    assert_eq!(skill_path(Some("/home/u/".to_string()), ".agents/skills"), "/home/u/.agents/skills/tdo/SKILL.md");
    assert_eq!(skill_path(None, ".agents/skills"), "~/.agents/skills/tdo/SKILL.md");
    assert!(needs_install(None, "g"));
    assert!(needs_install(Some(String::new()), "g"));
    assert!(!needs_install(Some("g".to_string()), "g"));
    assert!(confirms_install("y\n"));
    assert!(confirms_install("  Y "));
    assert!(!confirms_install("yes\n"));
    assert!(!confirms_install("n\n"));
    assert!(!confirms_install(""));
}

#[test]
fn error_messages() {
    assert!(TdoError::DbNotFound.message().contains("--db-path"));
    assert_eq!(
        TdoError::DbLocked.message(),
        "Things 3 database is locked (sync in progress?). Retried 3 times but it remains locked."
    );
    assert!(TdoError::AuthMissing.message().starts_with("Auth token required for write operations.\n"));
    let io = TdoError::Io(std::io::Error::other("boom"));
    assert_eq!(io.message(), "IO error: boom");
    let e: TdoError = rusqlite::Error::QueryReturnedNoRows.into();
    assert_eq!(e.message(), "Database error: Query returned no rows");
}

#[test]
fn open_decisions() {
    assert!(matches!(open_action(0, OpenOutcome::Ready), OpenAction::Use));
    assert!(matches!(open_action(0, OpenOutcome::Locked), OpenAction::Retry));
    assert!(matches!(open_action(1, OpenOutcome::Locked), OpenAction::Retry));
    assert!(matches!(open_action(2, OpenOutcome::Locked), OpenAction::Retry));
    assert!(matches!(open_action(3, OpenOutcome::Locked), OpenAction::GiveUpLocked));
    assert!(matches!(open_action(1, OpenOutcome::Failed), OpenAction::Fail));
}

#[test]
fn text_helpers_match_std() {
    for s in ["", "a", "a,b", ",a,,b,", "日,本"] {
        let expected: Vec<String> = s.split(',').map(|p| p.to_string()).collect();
        assert_eq!(split_char(s, ','), expected);
    }
    for s in ["", "  ", " a b ", "\u{3000}x\t", "\u{85}y\u{a0}"] {
        assert_eq!(trim_str(s), s.trim());
    }
    for s in ["0", "-0", "+7", "-", "+", "", "12a", "9223372036854775807", "9223372036854775808", "-9223372036854775808", "-9223372036854775809", "00012"] {
        assert_eq!(parse_i64_str(s), s.parse::<i64>().ok(), "{s}");
    }
}

#[test]
fn add_prints_the_id_from_the_reply() {
    assert_eq!(
        add_output_line("Buy milk", "things-callback://x-success?x-things-id=ABC123&x-source=tdo\n"),
        "ABC123"
    );
    assert_eq!(add_output_line("Buy milk", "x-things-id=ID1,ID2"), "ID1,ID2");
    assert_eq!(add_output_line("Buy milk", "  ABC123\n"), "ABC123");
    assert_eq!(add_output_line("Buy milk", ""), "Created todo: Buy milk");
    assert_eq!(add_output_line("Buy milk", " \n"), "Created todo: Buy milk");
    assert_eq!(add_output_line("Buy milk", "x-things-id=&x=1"), "Created todo: Buy milk");
}

