use plexi::palette::{
    choose_entry, clamp_selected, context_entries, move_selection, palette_action, palette_entries,
    palette_query, query_hits, rank_context_entries, rank_of, AgentCli, ContextEntry, PaletteAction,
    PaletteChoice, PaletteEntry, PaletteKey, PaletteWindow,
};

fn window(context_id: u64, window_id: u64, name: &str, focused: Option<u64>, panes: &[(u64, Option<&str>)]) -> PaletteWindow {
    PaletteWindow {
        context_id,
        window_id,
        context_name: name.to_string(),
        focused_pane: focused,
        panes: panes.iter().map(|(id, n)| (*id, n.map(|s| s.to_string()))).collect(),
    }
}

fn summary(es: &[ContextEntry]) -> Vec<(usize, u64, String, String, Option<u64>)> {
    es.iter()
        .map(|e| (e.ctx_idx, e.context_id, e.name.clone(), e.workspace_name.clone(), e.pane_id))
        .collect()
}

#[test]
fn queries_match_lowercased_text() {
    assert_eq!(palette_query("BuIld"), "build");
    assert!(query_hits("", "anything"));
    assert!(query_hits("serv", "Dev Server"));
    assert!(!query_hits("xyz", "Dev Server"));
}

#[test]
fn window_ranks_follow_activity_then_recency() {
    let history = vec![30, 20, 30];
    assert_eq!(rank_of(10, 10, &history), 0);
    assert_eq!(rank_of(30, 10, &history), 1);
    assert_eq!(rank_of(20, 10, &history), 2);
    assert_eq!(rank_of(99, 10, &history), usize::MAX);
}

#[test]
fn a_context_without_a_named_active_pane_is_listed_by_name() {
    let ws = vec![window(1, 100, "work", None, &[(7, None)])];
    let es = context_entries(&ws, &vec![], "");
    assert_eq!(summary(&es), vec![(0, 100, "work".to_string(), String::new(), None)]);
}

#[test]
fn the_named_active_pane_is_the_primary_entry_and_not_repeated() {
    let ws = vec![
        window(1, 100, "work", Some(7), &[(7, Some("editor")), (8, Some("logs")), (9, None)]),
        window(1, 101, "work", None, &[(11, Some("tests"))]),
        window(2, 200, "home", None, &[]),
    ];
    let active = vec![(1, 100)];
    let es = context_entries(&ws, &active, "");
    assert_eq!(
        summary(&es),
        vec![
            (0, 100, "editor".to_string(), "work".to_string(), Some(7)),
            (0, 100, "logs".to_string(), "work".to_string(), Some(8)),
            (1, 101, "tests".to_string(), "work".to_string(), Some(11)),
            (2, 200, "home".to_string(), String::new(), None),
        ]
    );
    let filtered = context_entries(&ws, &active, "log");
    assert_eq!(summary(&filtered), vec![(0, 100, "logs".to_string(), "work".to_string(), Some(8))]);
    let by_context = context_entries(&ws, &active, "hom");
    assert_eq!(summary(&by_context), vec![(2, 200, "home".to_string(), String::new(), None)]);
}

#[test]
fn a_context_falls_back_to_its_active_window() {
    let ws = vec![window(1, 100, "work", None, &[]), window(1, 101, "work", None, &[])];
    let es = context_entries(&ws, &vec![(1, 101)], "");
    assert_eq!(summary(&es), vec![(1, 101, "work".to_string(), String::new(), None)]);
}

#[test]
fn context_entries_are_ranked_stably() {
    let e = |idx: usize, id: u64, name: &str| ContextEntry {
        ctx_idx: idx,
        context_id: id,
        name: name.to_string(),
        workspace_name: String::new(),
        pane_id: None,
    };
    let es = vec![e(0, 1, "a"), e(1, 2, "b"), e(2, 3, "c"), e(3, 2, "d"), e(4, 9, "e")];
    let ranked = rank_context_entries(&es, 3, &vec![2, 1]);
    let names: Vec<String> = ranked.iter().map(|x| x.name.clone()).collect();
    assert_eq!(names, vec!["c", "b", "d", "a", "e"]);
}

#[test]
fn the_palette_lists_contexts_then_apps_then_actions() {
    let ws = vec![window(1, 100, "work", None, &[])];
    let apps = vec![
        ("notes".to_string(), "Notes".to_string(), "Take notes".to_string()),
        ("snake".to_string(), "Snake".to_string(), "A game".to_string()),
    ];
    let all = palette_entries(&ws, &vec![], "", 100, &vec![], &apps);
    assert_eq!(all.len(), 1 + 2 + 4);
    assert!(matches!(&all[0], PaletteEntry::Context(c) if c.name == "work"));
    assert!(matches!(&all[1], PaletteEntry::App { id, .. } if id == "notes"));
    assert!(matches!(&all[3], PaletteEntry::Action { id, .. } if id == "agent_workspace:modal"));

    let codex = palette_entries(&ws, &vec![], "codex", 100, &vec![], &apps);
    assert_eq!(codex.len(), 1);
    assert!(matches!(&codex[0], PaletteEntry::Action { id, .. } if id == "agent_workspace:codex"));

    let game = palette_entries(&ws, &vec![], "game", 100, &vec![], &apps);
    assert_eq!(game.len(), 1);
    assert!(matches!(&game[0], PaletteEntry::App { id, .. } if id == "snake"));
}

#[test]
fn selection_moves_within_the_list() {
    assert_eq!(clamp_selected(5, 3), 2);
    assert_eq!(clamp_selected(5, 0), 5);
    assert_eq!(clamp_selected(1, 3), 1);
    assert_eq!(move_selection(0, 3, PaletteKey::Down), 1);
    assert_eq!(move_selection(2, 3, PaletteKey::Down), 2);
    assert_eq!(move_selection(0, 0, PaletteKey::Down), 0);
    assert_eq!(move_selection(2, 3, PaletteKey::Up), 1);
    assert_eq!(move_selection(0, 3, PaletteKey::Up), 0);
}

#[test]
fn enter_chooses_the_selected_row() {
    let ws = vec![window(1, 100, "work", Some(7), &[(7, Some("editor"))])];
    let apps = vec![("notes".to_string(), "Notes".to_string(), String::new())];
    let all = palette_entries(&ws, &vec![(1, 100)], "", 100, &vec![], &apps);
    assert_eq!(
        choose_entry(&all, 0),
        Some(PaletteChoice::JumpContext { ctx_idx: 0, context_id: 100, pane_id: Some(7) })
    );
    assert_eq!(choose_entry(&all, 1), Some(PaletteChoice::LaunchApp("notes".to_string())));
    assert_eq!(
        choose_entry(&all, 2),
        Some(PaletteChoice::RunAction("agent_workspace:modal".to_string()))
    );
    assert_eq!(choose_entry(&all, 99), None);
}

#[test]
fn action_ids_dispatch() {
    assert_eq!(palette_action("agent_workspace:modal"), PaletteAction::OpenModal);
    assert_eq!(palette_action("agent_workspace:claude_code"), PaletteAction::Spawn(AgentCli::ClaudeCode));
    assert_eq!(palette_action("agent_workspace:codex"), PaletteAction::Spawn(AgentCli::Codex));
    assert_eq!(palette_action("agent_workspace:gemini_cli"), PaletteAction::Spawn(AgentCli::GeminiCli));
    assert_eq!(palette_action("bogus"), PaletteAction::Unknown);
}
