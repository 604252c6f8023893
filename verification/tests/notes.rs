use plexi::notes::{choose_editor, note_content, picker_command};

#[test]
fn captured_notes_carry_their_provenance() {
    assert_eq!(
        note_content("2024-01-02T03:04:05+00:00", "/work", "  buy milk \n"),
        "---\ncaptured_at: 2024-01-02T03:04:05+00:00\nsource: cli\ncwd: /work\n---\nbuy milk\n"
    );
}

#[test]
fn the_picker_prefers_micro_then_nano() {
    assert_eq!(choose_editor(true, true), "micro");
    assert_eq!(choose_editor(false, true), "nano");
    assert_eq!(choose_editor(false, false), "vim");
    assert_eq!(
        picker_command("/usr/local/bin/plexi-alpha", "nano"),
        "selected=$(\"/usr/local/bin/plexi-alpha\" notes list | fzf --header='Select note'); [ -n \"$selected\" ] && nano \"$selected\"\r"
    );
}
