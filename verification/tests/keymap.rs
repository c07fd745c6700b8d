use lightspeed::keymap::{
    is_command_palette_shortcut, resolve, resolve_find, resolve_named, resolve_prompt, Binding,
    CommandArgs, FindAction, Key, Modifiers, NamedKey,
};
use lightspeed::shell::PromptAnswer;

const PLAIN: Modifiers = Modifiers { control: false, shift: false, alt: false };
const SHIFT: Modifiers = Modifiers { control: false, shift: true, alt: false };
const CONTROL: Modifiers = Modifiers { control: true, shift: false, alt: false };
const BOTH: Modifiers = Modifiers { control: true, shift: true, alt: false };
const ALT: Modifiers = Modifiers { control: false, shift: false, alt: true };

fn character(text: &str) -> Key {
    Key::Character(text.to_string())
}

fn command_of(binding: Binding) -> Option<&'static str> {
    match binding {
        Binding::Command(id, _) => Some(id),
        _ => None,
    }
}

#[test]
fn plain_characters_are_inserted() {
    assert_eq!(resolve(&character("a"), &PLAIN), Binding::InsertText);
    assert_eq!(resolve(&Key::Named(NamedKey::Space), &PLAIN), Binding::InsertText);
}

#[test]
fn control_shortcuts_map_to_commands() {
    assert_eq!(command_of(resolve(&character("s"), &CONTROL)), Some("file.save"));
    assert_eq!(command_of(resolve(&character("z"), &CONTROL)), Some("edit.undo"));
    assert_eq!(command_of(resolve(&character("a"), &CONTROL)), Some("edit.select_all"));

    assert_eq!(command_of(resolve(&character("s"), &BOTH)), Some("file.save_as"));
    assert_eq!(command_of(resolve(&character("z"), &BOTH)), Some("edit.redo"));
    assert_eq!(command_of(resolve(&character("w"), &BOTH)), Some("file.close_all_clean_tabs"));
}

#[test]
fn shift_tab_dedents_and_plain_tab_still_indents() {
    assert_eq!(command_of(resolve(&Key::Named(NamedKey::Tab), &SHIFT)), Some("edit.dedent"));
    assert_eq!(command_of(resolve(&Key::Named(NamedKey::Tab), &PLAIN)), Some("edit.insert_tab"));
}

#[test]
fn ctrl_digit_jumps_to_that_tab() {
    for digit in 1..=9 {
        let binding = resolve(&character(&digit.to_string()), &CONTROL);
        assert_eq!(binding, Binding::Command("view.go_to_tab", CommandArgs::Index(digit)));
    }
}

#[test]
fn ctrl_0_and_ctrl_shift_digit_are_not_tab_jumps() {
    assert_eq!(resolve(&character("0"), &CONTROL), Binding::Unbound);
    assert_ne!(
        resolve(&character("1"), &BOTH),
        Binding::Command("view.go_to_tab", CommandArgs::Index(1))
    );
}

#[test]
fn ctrl_f_opens_find() {
    assert_eq!(command_of(resolve(&character("f"), &CONTROL)), Some("edit.find"));
}

#[test]
fn f3_finds_next_and_shift_f3_finds_previous() {
    assert_eq!(command_of(resolve(&Key::Named(NamedKey::F3), &PLAIN)), Some("edit.find_next"));
    assert_eq!(command_of(resolve(&Key::Named(NamedKey::F3), &SHIFT)), Some("edit.find_previous"));
}

#[test]
fn the_find_bar_table_handles_navigation_and_close() {
    assert_eq!(resolve_find(&Key::Named(NamedKey::Escape), false), FindAction::Close);
    assert_eq!(resolve_find(&Key::Named(NamedKey::Backspace), false), FindAction::Backspace);
    assert_eq!(resolve_find(&Key::Named(NamedKey::Enter), false), FindAction::Next);
    assert_eq!(resolve_find(&Key::Named(NamedKey::Enter), true), FindAction::Previous);
    assert_eq!(resolve_find(&character("x"), false), FindAction::Unbound);
}

#[test]
fn shift_turns_movement_into_selection() {
    assert_eq!(
        command_of(resolve(&Key::Named(NamedKey::ArrowRight), &PLAIN)),
        Some("cursor.right")
    );
    assert_eq!(
        command_of(resolve(&Key::Named(NamedKey::ArrowRight), &SHIFT)),
        Some("cursor.right.select")
    );
}

#[test]
fn control_arrows_move_by_word() {
    assert_eq!(
        command_of(resolve(&Key::Named(NamedKey::ArrowLeft), &CONTROL)),
        Some("cursor.word_left")
    );
    assert_eq!(
        command_of(resolve(&Key::Named(NamedKey::ArrowLeft), &BOTH)),
        Some("cursor.word_left.select")
    );
}

#[test]
fn editing_keys_are_bound() {
    assert_eq!(
        command_of(resolve(&Key::Named(NamedKey::Backspace), &PLAIN)),
        Some("edit.delete_backward")
    );
    assert_eq!(
        command_of(resolve(&Key::Named(NamedKey::Enter), &PLAIN)),
        Some("edit.insert_newline")
    );
    assert_eq!(command_of(resolve(&Key::Named(NamedKey::Tab), &PLAIN)), Some("edit.insert_tab"));
    assert_eq!(
        command_of(resolve(&Key::Named(NamedKey::Backspace), &CONTROL)),
        Some("edit.delete_word_backward")
    );
}

#[test]
fn tab_switching_is_bound_to_control_tab() {
    assert_eq!(command_of(resolve(&Key::Named(NamedKey::Tab), &CONTROL)), Some("view.next_tab"));
    assert_eq!(command_of(resolve(&Key::Named(NamedKey::Tab), &BOTH)), Some("view.previous_tab"));
}

#[test]
fn alt_combinations_are_left_to_the_platform() {
    assert_eq!(resolve(&character("f"), &ALT), Binding::Unbound);
}

#[test]
fn ctrl_shift_p_opens_the_command_palette() {
    assert!(is_command_palette_shortcut(&character("p"), &BOTH));
    assert!(is_command_palette_shortcut(&character("P"), &BOTH), "case-insensitive");
    assert_eq!(resolve(&character("p"), &BOTH), Binding::Unbound, "bound to nothing else");
}

#[test]
fn plain_p_or_ctrl_p_alone_does_not_open_the_palette() {
    assert!(!is_command_palette_shortcut(&character("p"), &PLAIN));
    assert!(!is_command_palette_shortcut(&character("p"), &CONTROL));
    assert!(!is_command_palette_shortcut(&character("p"), &SHIFT));
}

#[test]
fn a_confirmation_is_answered_by_letter_or_by_enter_and_escape() {
    assert_eq!(resolve_prompt(&Key::Named(NamedKey::Enter)), Some(PromptAnswer::Save));
    assert_eq!(resolve_prompt(&Key::Named(NamedKey::Escape)), Some(PromptAnswer::Cancel));
    assert_eq!(resolve_prompt(&character("S")), Some(PromptAnswer::Save));
    assert_eq!(resolve_prompt(&character("d")), Some(PromptAnswer::Discard));
    assert_eq!(resolve_prompt(&character("c")), Some(PromptAnswer::Cancel));
    assert_eq!(resolve_prompt(&character("x")), None);
    assert_eq!(resolve_prompt(&Key::Named(NamedKey::Tab)), None);
}

#[test]
fn the_printed_shortcuts_run_what_they_say() {
    let control = [
        ("n", "file.new"),
        ("o", "file.open"),
        ("s", "file.save"),
        ("z", "edit.undo"),
        ("y", "edit.redo"),
        ("w", "file.close_tab"),
        ("c", "edit.copy"),
        ("x", "edit.cut"),
        ("v", "edit.paste"),
        ("a", "edit.select_all"),
    ];
    for (letter, command) in control {
        assert_eq!(command_of(resolve(&character(letter), &CONTROL)), Some(command), "{letter}");
    }
    let named = [
        (NamedKey::Escape, "document.cancel_load"),
        (NamedKey::F5, "diagnostics.duplicate_storm"),
        (NamedKey::F6, "diagnostics.slow_load"),
        (NamedKey::F7, "diagnostics.failing_load"),
        (NamedKey::F9, "view.toggle_dev_panel"),
        (NamedKey::F12, "view.toggle_performance_overlay"),
    ];
    for (key, command) in named {
        assert_eq!(command_of(resolve(&Key::Named(key), &PLAIN)), Some(command), "{key:?}");
    }
}

#[test]
fn shift_extends_every_movement() {
    let mut keys = Vec::new();
    for control in [false, true] {
        for key in [
            NamedKey::ArrowLeft,
            NamedKey::ArrowRight,
            NamedKey::ArrowUp,
            NamedKey::ArrowDown,
            NamedKey::Home,
            NamedKey::End,
        ] {
            keys.push((key, control));
        }
    }
    keys.push((NamedKey::PageUp, false));
    keys.push((NamedKey::PageDown, false));
    for (key, control) in keys {
        match (resolve_named(key, control, false), resolve_named(key, control, true)) {
            (
                Binding::Command(id, CommandArgs::Nothing),
                Binding::Command(select, CommandArgs::Nothing),
            ) => assert_eq!(select, format!("{id}.select")),
            other => panic!("{key:?} does not move: {other:?}"),
        }
    }
}
