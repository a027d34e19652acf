use flutter_engine::codec::{MethodCall, MethodCallResult};
use flutter_engine::textinput::{TextEditingState, TextInputPlugin};
use flutter_engine::value::Value;

fn state(text: &str, base: i64, extent: i64) -> TextEditingState {
    TextEditingState {
        composing_base: -1,
        composing_extent: -1,
        selection_affinity: "TextAffinity.downstream".to_string(),
        selection_base: base,
        selection_extent: extent,
        selection_is_directional: false,
        text: text.to_string(),
    }
}

fn plugin(text: &str, base: i64, extent: i64) -> TextInputPlugin {
    let mut p = TextInputPlugin::new();
    p.set_client(3);
    assert!(p.set_editing_state(state(text, base, extent)));
    p
}

fn view(p: &TextInputPlugin) -> (String, i64, i64) {
    let s = p.editing_state().as_ref().unwrap();
    (s.text.clone(), s.selection_base, s.selection_extent)
}

#[test]
fn typing_replaces_selection() {
    let mut p = plugin("héllo", 1, 3);
    assert!(p.add_chars("ab").is_some());
    assert_eq!(view(&p), ("hablo".to_string(), 3, 3));
    p.add_chars("!");
    assert_eq!(view(&p), ("hab!lo".to_string(), 4, 4));
}

#[test]
fn backspace_and_delete() {
    let mut p = plugin("abc", 2, 2);
    p.backspace();
    assert_eq!(view(&p), ("ac".to_string(), 1, 1));
    p.delete();
    assert_eq!(view(&p), ("a".to_string(), 1, 1));
    p.delete();
    assert_eq!(view(&p), ("a".to_string(), 1, 1));
    let mut p = plugin("abcd", 3, 1);
    p.backspace();
    assert_eq!(view(&p), ("ad".to_string(), 1, 1));
    let mut p = plugin("x", 0, 0);
    p.backspace();
    assert_eq!(view(&p), ("x".to_string(), 0, 0));
}

#[test]
fn selection_and_cursor_moves() {
    let mut p = plugin("hello", 2, 2);
    p.select_all();
    assert_eq!(view(&p), ("hello".to_string(), 0, 5));
    assert_eq!(p.get_selected_text(), "hello");
    p.move_cursor_left(false);
    assert_eq!(view(&p), ("hello".to_string(), 0, 0));
    p.move_cursor_left(false);
    assert_eq!(view(&p), ("hello".to_string(), 0, 0));
    p.move_cursor_right(true);
    p.move_cursor_right(true);
    assert_eq!(view(&p), ("hello".to_string(), 0, 2));
    assert_eq!(p.get_selected_text(), "he");
    p.move_cursor_right(false);
    assert_eq!(view(&p), ("hello".to_string(), 2, 2));
    p.move_cursor_end(true);
    assert_eq!(view(&p), ("hello".to_string(), 2, 5));
    p.move_cursor_home(false);
    assert_eq!(view(&p), ("hello".to_string(), 0, 0));
    p.move_cursor_end(false);
    assert_eq!(view(&p), ("hello".to_string(), 5, 5));
    p.move_cursor_right(false);
    assert_eq!(view(&p), ("hello".to_string(), 5, 5));
    assert_eq!(p.get_selected_text(), "");
}

#[test]
fn remove_selection_reports_change() {
    let mut p = plugin("hello", 1, 4);
    assert!(p.remove_selected_text().is_some());
    assert_eq!(view(&p), ("ho".to_string(), 1, 1));
    assert!(p.remove_selected_text().is_none());
}

#[test]
fn invalid_state_is_not_kept() {
    let mut p = TextInputPlugin::new();
    p.set_client(1);
    assert!(!p.set_editing_state(state("ab", 0, 3)));
    assert!(!p.set_editing_state(state("ab", -1, 0)));
    assert!(!p.has_editing_state());
    assert!(p.add_chars("x").is_none());
}

fn dict_get<'a>(v: &'a Value, k: &str) -> &'a Value {
    match v {
        Value::Dict(m) => m
            .iter()
            .find(|(key, _)| matches!(key, Value::String(s) if s == k))
            .map(|(_, v)| v)
            .unwrap(),
        _ => panic!("not a dict"),
    }
}

#[test]
fn update_call_carries_client_and_state() {
    let mut p = plugin("ab", 0, 0);
    let call: MethodCall = p.add_chars("z").unwrap();
    assert_eq!(call.method, "TextInputClient.updateEditingState");
    match &call.args {
        Value::List(items) => {
            assert!(matches!(items[0], Value::I64(3)));
            assert!(matches!(dict_get(&items[1], "text"), Value::String(s) if s == "zab"));
            assert!(matches!(dict_get(&items[1], "selectionBase"), Value::I64(1)));
            assert!(matches!(dict_get(&items[1], "selectionIsDirectional"), Value::Boolean(false)));
        }
        other => panic!("unexpected {:?}", other),
    }
    let action = p.perform_action("done");
    assert_eq!(action.method, "TextInputClient.performAction");
    match &action.args {
        Value::List(items) => {
            assert!(matches!(items[0], Value::I64(3)));
            assert!(matches!(&items[1], Value::String(s) if s == "TextInputAction.done"));
        }
        other => panic!("unexpected {:?}", other),
    }
}

fn s(x: &str) -> Value {
    Value::String(x.to_string())
}

fn state_value(text: &str, base: i32, extent: i64) -> Value {
    Value::Dict(vec![
        (s("composingBase"), Value::I32(-1)),
        (s("composingExtent"), Value::I64(-1)),
        (s("selectionAffinity"), s("TextAffinity.downstream")),
        (s("selectionBase"), Value::I32(base)),
        (s("selectionExtent"), Value::I64(extent)),
        (s("selectionIsDirectional"), Value::Boolean(false)),
        (s("text"), s(text)),
    ])
}

#[test]
fn editing_state_from_value() {
    let st = TextEditingState::from_value(&state_value("hey", 1, 2)).unwrap();
    assert_eq!(st.text, "hey");
    assert_eq!(st.selection_base, 1);
    assert_eq!(st.selection_extent, 2);
    assert_eq!(st.composing_extent, -1);
    assert!(TextEditingState::from_value(&Value::Null).is_none());
    let missing = Value::Dict(vec![(s("text"), s("x"))]);
    assert!(TextEditingState::from_value(&missing).is_none());
}

#[test]
fn text_input_calls() {
    let mut p = TextInputPlugin::new();
    let call = |m: &str, args: Value| MethodCall { method: m.to_string(), args };
    let r = p.handle_call(&call("TextInput.setEditingState", state_value("ab", 0, 0)));
    assert!(matches!(r, MethodCallResult::Success(Value::Null)));
    assert!(!p.has_editing_state());
    p.handle_call(&call("TextInput.setClient", Value::List(vec![Value::I32(4), Value::Null])));
    assert_eq!(p.client_id(), Some(4));
    p.handle_call(&call("TextInput.setEditingState", state_value("ab", 0, 9)));
    assert!(!p.has_editing_state());
    p.handle_call(&call("TextInput.setEditingState", state_value("ab", 0, 2)));
    assert!(p.has_editing_state());
    p.handle_call(&call("TextInput.setEditingState", Value::I32(1)));
    assert!(!p.has_editing_state());
    p.handle_call(&call("TextInput.setEditingState", state_value("ab", 0, 2)));
    assert!(p.has_editing_state());
    p.handle_call(&call("TextInput.setEditingState", state_value("ab", 0, 7)));
    assert!(!p.has_editing_state());
    p.handle_call(&call("TextInput.setEditingState", state_value("ab", 1, 1)));
    assert!(matches!(
        p.handle_call(&call("TextInput.show", Value::Null)),
        MethodCallResult::Success(_)
    ));
    assert!(matches!(
        p.handle_call(&call("TextInput.unknown", Value::Null)),
        MethodCallResult::NotImplemented
    ));
    p.handle_call(&call("TextInput.clearClient", Value::Null));
    assert_eq!(p.client_id(), None);
    assert!(!p.has_editing_state());
}
