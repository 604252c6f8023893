use plexi::list::{app_badge, app_row, list_lines, ListedApp};

fn strings(v: &[&str]) -> Vec<String> {
    v.iter().map(|s| s.to_string()).collect()
}

fn app(id: &str, name: &str, version: &str, global: bool) -> ListedApp {
    ListedApp { id: id.into(), name: name.into(), manifest_version: version.into(), global }
}

#[test]
fn badges_in_order_of_precedence() {
    let core = strings(&["notes"]);
    let ex = strings(&["notes", "snake"]);
    let ws = strings(&["snake", "todo"]);
    assert_eq!(app_badge("notes", &core, &ex, &ws), "[core]");
    assert_eq!(app_badge("snake", &core, &ex, &ws), "[example]");
    assert_eq!(app_badge("todo", &core, &ex, &ws), "[workspace]");
    assert_eq!(app_badge("other", &core, &ex, &ws), "");
}

#[test]
fn rows_pad_id_and_name_to_thirty_columns() {
    assert_eq!(app_row("notes", "Notes", "1.0", ""), format!("  {:30} {:30} {}", "notes", "Notes", "1.0"));
    assert_eq!(
        app_row("notes", "Notes", "1.0", "[core]"),
        format!("  {:30} {:30} {}  {}", "notes", "Notes", "1.0", "[core]")
    );
}

#[test]
fn nothing_installed_prints_a_hint() {
    assert_eq!(
        list_lines(&vec![], &vec![], &vec![], &vec![], &vec![], "/apps", None),
        strings(&["no apps installed", "install one with: plexi app install <source>[@ref]"])
    );
}

#[test]
fn apps_are_grouped_by_where_they_are_installed() {
    let apps = vec![
        app("notes", "Notes", "0.1", true),
        app("todo", "Todo", "2.0", false),
        app("snake", "Snake", "0.3", true),
    ];
    let versions = vec![("notes".to_string(), "0.2".to_string())];
    let lines = list_lines(&apps, &versions, &strings(&["notes"]), &vec![], &strings(&["todo"]), "/apps", Some("/ws"));
    assert_eq!(
        lines,
        vec![
            "Global apps (/apps)".to_string(),
            format!("  {:30} {:30} {}  {}", "notes", "Notes", "0.2", "[core]"),
            format!("  {:30} {:30} {}", "snake", "Snake", "0.3"),
            String::new(),
            "Workspace apps (/ws)".to_string(),
            format!("  {:30} {:30} {}  {}", "todo", "Todo", "2.0", "[workspace]"),
        ]
    );
    let no_root = list_lines(&apps, &versions, &vec![], &vec![], &vec![], "/apps", None);
    assert_eq!(no_root.len(), 3);
}
