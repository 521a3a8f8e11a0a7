use tdo::write::{
    build_add_project_url, build_add_url, build_cancel_url, build_complete_url, build_move_url,
    build_update_url, url_encode, AddParams, AddProjectParams, UpdateParams,
};

#[test]
fn test_build_add_url_simple() {
    let url = build_add_url(&AddParams {
        title: "Buy milk",
        notes: None,
        when: None,
        deadline: None,
        tags: None,
        list: None,
        heading: None,
        checklist_items: &[],
    });
    assert_eq!(url, "things:///add?title=Buy%20milk");
}

#[test]
fn test_build_add_url_full() {
    let url = build_add_url(&AddParams {
        title: "Test task",
        notes: Some("Some notes"),
        when: Some("today"),
        deadline: Some("2024-12-25"),
        tags: Some("tag1,tag2"),
        list: Some("My Project"),
        heading: Some("A heading"),
        checklist_items: &["item 1".to_string(), "item 2".to_string()],
    });
    assert!(url.starts_with("things:///add?"));
    assert!(url.contains("title=Test%20task"));
    assert!(url.contains("notes=Some%20notes"));
    assert!(url.contains("when=today"));
    assert!(url.contains("deadline=2024-12-25"));
    assert!(url.contains("tags=tag1%2Ctag2"));
    assert!(url.contains("list=My%20Project"));
    assert!(url.contains("heading=A%20heading"));
    assert!(url.contains("checklist-items=item%201%0Aitem%202"));
}

#[test]
fn test_build_complete_url() {
    let url = build_complete_url("abc-123", "token123");
    assert_eq!(
        url,
        "things:///update?id=abc-123&completed=true&auth-token=token123"
    );
}

#[test]
fn test_build_cancel_url() {
    let url = build_cancel_url("abc-123", "token123");
    assert_eq!(
        url,
        "things:///update?id=abc-123&canceled=true&auth-token=token123"
    );
}

#[test]
fn test_build_update_url() {
    let url = build_update_url(&UpdateParams {
        id: "abc-123",
        auth_token: "token123",
        title: Some("New title"),
        notes: None,
        append_notes: None,
        prepend_notes: None,
        when: Some("tomorrow"),
        deadline: None,
        add_tags: Some("urgent"),
        list: None,
        heading: None,
    });
    assert!(url.contains("id=abc-123"));
    assert!(url.contains("auth-token=token123"));
    assert!(url.contains("title=New%20title"));
    assert!(url.contains("when=tomorrow"));
    assert!(url.contains("add-tags=urgent"));
}

#[test]
fn test_build_add_project_url_simple() {
    let url = build_add_project_url(&AddProjectParams {
        title: "My Project",
        notes: None,
        when: None,
        deadline: None,
        tags: None,
        area: None,
        todos: &[],
    });
    assert_eq!(url, "things:///add-project?title=My%20Project");
}

#[test]
fn test_build_add_project_url_full() {
    let url = build_add_project_url(&AddProjectParams {
        title: "Sprint 13",
        notes: Some("Sprint notes"),
        when: Some("today"),
        deadline: Some("2025-07-01"),
        tags: Some("work,sprint"),
        area: Some("Work"),
        todos: &["Task 1".to_string(), "Task 2".to_string()],
    });
    assert!(url.starts_with("things:///add-project?"));
    assert!(url.contains("title=Sprint%2013"));
    assert!(url.contains("notes=Sprint%20notes"));
    assert!(url.contains("when=today"));
    assert!(url.contains("deadline=2025-07-01"));
    assert!(url.contains("tags=work%2Csprint"));
    assert!(url.contains("area=Work"));
    assert!(url.contains("to-dos="));
}

#[test]
fn test_build_move_url() {
    let url = build_move_url("abc-123", "token123", "My Project");
    assert!(url.contains("id=abc-123"));
    assert!(url.contains("list=My%20Project"));
    assert!(url.contains("auth-token=token123"));
}

#[test]
fn url_encode_keeps_unreserved_and_encodes_utf8() {
    assert_eq!(url_encode("AZaz09-_.~"), "AZaz09-_.~");
    assert_eq!(url_encode("a b&c=d/e?"), "a%20b%26c%3Dd%2Fe%3F");
    assert_eq!(url_encode("é"), "%C3%A9");
    assert_eq!(url_encode("日"), "%E6%97%A5");
    assert_eq!(url_encode(""), "");
}

#[test]
fn add_url_orders_parameters_exactly() {
    let url = build_add_url(&AddParams {
        title: "T",
        notes: Some("n"),
        when: None,
        deadline: None,
        tags: None,
        list: None,
        heading: Some("h"),
        checklist_items: &["a".to_string()],
    });
    assert_eq!(url, "things:///add?title=T&notes=n&heading=h&checklist-items=a");
}

#[test]
fn add_project_url_holds_json_todos() {
    let url = build_add_project_url(&AddProjectParams {
        title: "P",
        notes: None,
        when: None,
        deadline: None,
        tags: None,
        area: None,
        todos: &["Task \"1\"".to_string(), "Two".to_string()],
    });
    let expected_json = r#"[{"title":"Task \"1\""},{"title":"Two"}]"#;
    assert_eq!(
        url,
        format!("things:///add-project?title=P&to-dos={}", url_encode(expected_json))
    );
    assert!(url.ends_with("to-dos=%5B%7B%22title%22%3A%22Task%20%5C%221%5C%22%22%7D%2C%7B%22title%22%3A%22Two%22%7D%5D"));
}

#[test]
fn update_url_full_order() {
    let url = build_update_url(&UpdateParams {
        id: "i d",
        auth_token: "t",
        title: Some("a"),
        notes: Some("b"),
        append_notes: Some("c"),
        prepend_notes: Some("d"),
        when: Some("e"),
        deadline: Some("f"),
        add_tags: Some("g"),
        list: Some("h"),
        heading: Some("j"),
    });
    assert_eq!(
        url,
        "things:///update?id=i%20d&auth-token=t&title=a&notes=b&append-notes=c&prepend-notes=d&when=e&deadline=f&add-tags=g&list=h&heading=j"
    );
}

#[test]
fn move_url_exact() {
    assert_eq!(
        build_move_url("x", "y", "My Project"),
        "things:///update?id=x&list=My%20Project&auth-token=y"
    );
}

fn read_back(query: &str) -> Vec<(String, Vec<u8>)> {
    query
        .split('&')
        .map(|part| {
            let (name, value) = part.split_once('=').unwrap_or((part, ""));
            let chars: Vec<char> = value.chars().collect();
            let mut bytes = Vec::new();
            let mut i = 0;
            while i < chars.len() {
                if chars[i] == '%' && i + 2 < chars.len() {
                    let hex: String = chars[i + 1..i + 3].iter().collect();
                    bytes.push(u8::from_str_radix(&hex, 16).unwrap());
                    i += 3;
                } else {
                    bytes.push(chars[i] as u8);
                    i += 1;
                }
            }
            (name.to_string(), bytes)
        })
        .collect()
}

#[test]
fn add_url_reads_back_as_its_parameters() {
    let items = vec!["a & b".to_string(), "c=d".to_string()];
    let url = build_add_url(&AddParams {
        title: "Tè = 100% & more",
        notes: None,
        when: Some("today"),
        deadline: None,
        tags: Some("x,y"),
        list: None,
        heading: Some("H\n2"),
        checklist_items: &items,
    });
    let query = url.strip_prefix("things:///add?").unwrap();
    assert_eq!(
        read_back(query),
        vec![
            ("title".to_string(), "Tè = 100% & more".as_bytes().to_vec()),
            ("when".to_string(), b"today".to_vec()),
            ("tags".to_string(), b"x,y".to_vec()),
            ("heading".to_string(), b"H\n2".to_vec()),
            ("checklist-items".to_string(), b"a & b\nc=d".to_vec()),
        ]
    );
}

#[test]
fn every_percent_in_an_encoding_starts_a_triple() {
    let e = url_encode("a b/é%~\n");
    assert_eq!(e, "a%20b%2F%C3%A9%25~%0A");
    let chars: Vec<char> = e.chars().collect();
    for (i, c) in chars.iter().enumerate() {
        if *c == '%' {
            assert!(i + 2 < chars.len());
            assert!(chars[i + 1].is_ascii_hexdigit() && !chars[i + 1].is_ascii_lowercase());
            assert!(chars[i + 2].is_ascii_hexdigit() && !chars[i + 2].is_ascii_lowercase());
        }
    }
}
