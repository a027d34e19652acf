use flutter_engine::channel::{DropReason, Inbound};
use flutter_engine::boundary::EngineBoundary;
use flutter_engine::codec::CodecTypes;
use flutter_engine::ffi::FlutterResult;
use flutter_engine::plugins::{DeclaredPlugin, PluginInstance, PluginRegistrar};
use flutter_engine::textinput::{TextEditingState, TextInputPlugin};

#[test]
fn two_plugins_claiming_one_channel() {
    let mut reg = PluginRegistrar::new();
    let a = DeclaredPlugin::new("a".to_string())
        .with_channel("x/y".to_string(), CodecTypes::StandardMessageCodec);
    let b = DeclaredPlugin::new("b".to_string())
        .with_channel("x/y".to_string(), CodecTypes::JsonMessageCodec);
    assert!(reg.can_add_plugin(&a));
    reg.add_plugin(PluginInstance::Declared(a));
    assert!(!reg.can_add_plugin(&b));
    assert!(reg.has_plugin("a"));
    assert!(!reg.has_plugin("b"));
}

#[test]
fn duplicate_plugin_name_and_repeated_channel() {
    let mut reg = PluginRegistrar::new();
    let a = DeclaredPlugin::new("a".to_string())
        .with_channel("p/1".to_string(), CodecTypes::StandardMessageCodec);
    reg.add_plugin(PluginInstance::Declared(a));
    let a2 = DeclaredPlugin::new("a".to_string())
        .with_channel("p/2".to_string(), CodecTypes::StandardMessageCodec);
    assert!(!reg.can_add_plugin(&a2));
    let fresh = DeclaredPlugin::new("f".to_string())
        .with_channel("p/2".to_string(), CodecTypes::StandardMessageCodec);
    assert!(reg.can_add_plugin(&fresh));
    let twice = DeclaredPlugin::new("t".to_string())
        .with_channel("q/1".to_string(), CodecTypes::StandardMessageCodec)
        .with_channel("q/1".to_string(), CodecTypes::StandardMessageCodec);
    assert!(!reg.can_add_plugin(&twice));
    assert!(!reg.has_plugin("t"));
}

#[test]
fn registered_channels_route_messages() {
    let mut reg = PluginRegistrar::new();
    assert!(reg.text_input().is_none());
    reg.add_plugin(PluginInstance::TextInput(TextInputPlugin::new()));
    assert!(reg.has_plugin("textinput"));
    assert!(reg.text_input().is_some());
    assert!(matches!(reg.plugin("textinput"), Some(PluginInstance::TextInput(_))));
    assert!(reg.plugin("other").is_none());
    let i = reg.find_plugin("textinput").unwrap();
    if let PluginInstance::TextInput(t) = reg.plugin_at_mut(i) {
        t.set_client(5);
    }
    assert_eq!(reg.text_input().unwrap().client_id(), Some(5));
    let mut b = EngineBoundary::new(1);
    let msg = b.receive("flutter/textinput".to_string(), b"{}".to_vec(), true).unwrap();
    assert!(matches!(
        reg.handle(msg),
        Inbound::Dropped { reason: DropReason::NoHandler, .. }
    ));
    assert!(reg.set_handler("flutter/textinput", true));
    assert!(!reg.set_handler("flutter/none", true));
    let msg = b.receive("flutter/textinput".to_string(), b"{}".to_vec(), true).unwrap();
    assert!(matches!(reg.handle(msg), Inbound::JsonCall { .. }));
}

fn state() -> TextEditingState {
    TextEditingState {
        composing_base: -1,
        composing_extent: -1,
        selection_affinity: "TextAffinity.downstream".to_string(),
        selection_base: 0,
        selection_extent: 0,
        selection_is_directional: false,
        text: "ab".to_string(),
    }
}

#[test]
fn text_input_client_lifecycle() {
    let mut p = TextInputPlugin::new();
    assert!(!p.set_editing_state(state()));
    assert!(!p.has_editing_state());
    p.set_client(7);
    assert_eq!(p.client_id(), Some(7));
    assert!(p.set_editing_state(state()));
    assert_eq!(p.editing_state().as_ref().unwrap().text, "ab");
    p.clear_client();
    assert_eq!(p.client_id(), None);
    assert!(!p.has_editing_state());
}

#[test]
fn native_result_codes() {
    assert_eq!(FlutterResult::from_code(0), Some(FlutterResult::Success));
    assert_eq!(FlutterResult::from_code(1), Some(FlutterResult::InvalidLibraryVersion));
    assert_eq!(FlutterResult::from_code(2), Some(FlutterResult::InvalidArguments));
    assert_eq!(FlutterResult::from_code(3), None);
    assert!(FlutterResult::Success.is_success());
    assert!(!FlutterResult::InvalidArguments.is_success());
}
