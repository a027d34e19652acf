use flutter_engine::ffi::FlutterPointerPhase as P;
use flutter_engine::input::{key_command, EditCommand, Key, KeyModifiers, PointerState};
use flutter_engine::textinput::{TextEditingState, TextInputPlugin};

#[test]
fn pointer_is_announced_once() {
    let mut s = PointerState::new();
    assert_eq!(s.phases_to_send(P::Move), vec![P::Add, P::Move]);
    assert_eq!(s.phases_to_send(P::Down), vec![P::Down]);
    assert_eq!(s.phases_to_send(P::Add), vec![]);
    assert_eq!(s.phases_to_send(P::Remove), vec![P::Remove]);
    assert_eq!(s.phases_to_send(P::Add), vec![P::Add]);
    assert_eq!(s.phases_to_send(P::Hover), vec![P::Hover]);
}

#[test]
fn keys_map_to_commands() {
    let plain = KeyModifiers { select: false, command: false };
    let shift = KeyModifiers { select: true, command: false };
    let cmd = KeyModifiers { select: false, command: true };
    assert_eq!(key_command(Key::Enter, plain), Some(EditCommand::Newline));
    assert_eq!(key_command(Key::Backspace, cmd), Some(EditCommand::Backspace));
    assert_eq!(key_command(Key::Left, shift), Some(EditCommand::MoveLeft { extend: true }));
    assert_eq!(key_command(Key::End, plain), Some(EditCommand::MoveEnd { extend: false }));
    assert_eq!(key_command(Key::A, plain), None);
    assert_eq!(key_command(Key::A, cmd), Some(EditCommand::SelectAll));
    assert_eq!(key_command(Key::X, cmd), Some(EditCommand::Cut));
    assert_eq!(key_command(Key::C, cmd), Some(EditCommand::Copy));
    assert_eq!(key_command(Key::V, cmd), Some(EditCommand::Paste));
    assert_eq!(key_command(Key::Other, cmd), None);
}

fn plugin(text: &str, base: i64, extent: i64) -> TextInputPlugin {
    let mut p = TextInputPlugin::new();
    p.set_client(1);
    assert!(p.set_editing_state(TextEditingState {
        composing_base: -1,
        composing_extent: -1,
        selection_affinity: "TextAffinity.downstream".to_string(),
        selection_base: base,
        selection_extent: extent,
        selection_is_directional: false,
        text: text.to_string(),
    }));
    p
}

fn text(p: &TextInputPlugin) -> String {
    p.editing_state().as_ref().unwrap().text.clone()
}

#[test]
fn cut_copy_paste() {
    let mut p = plugin("hello", 1, 3);
    let (update, clip) = p.apply_command(EditCommand::Copy, None);
    assert!(update.is_some());
    assert_eq!(clip.as_deref(), Some("el"));
    assert_eq!(text(&p), "hello");
    let (_, clip) = p.apply_command(EditCommand::Cut, None);
    assert_eq!(clip.as_deref(), Some("el"));
    assert_eq!(text(&p), "hlo");
    let (_, clip) = p.apply_command(EditCommand::Paste, Some("EL"));
    assert_eq!(clip, None);
    assert_eq!(text(&p), "hELlo");
    p.apply_command(EditCommand::Paste, None);
    assert_eq!(text(&p), "hELlo");
    p.apply_command(EditCommand::Newline, None);
    assert_eq!(text(&p), "hEL\nlo");
}

#[test]
fn command_without_state_does_nothing() {
    let mut p = TextInputPlugin::new();
    let (update, clip) = p.apply_command(EditCommand::SelectAll, None);
    assert!(update.is_none());
    assert!(clip.is_none());
}
