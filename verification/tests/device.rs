use espled::color::RGBLedColor;
use espled::commands::{execute_command, hex_string, parse_argument, parse_color_command, parse_hex, CommandOutcome};
use espled::legacy;
use espled::dispatch::{respond, RequestDispatcher, DEVICE_NAME, FRAME_TERMINATOR};
use espled::effects::{Decay, Direct, Effect, HueRotate};
use espled::engine::RgbControl;
use espled::params::ParameterTypes;
use espled::store::SettingsStore;

#[test]
fn engine_rejects_out_of_range_selection() {
    let mut engine = RgbControl::new();
    assert_eq!(engine.get_effect_name(), "Direct");
    assert!(!engine.set_effect(2));
    assert_eq!(engine.get_effect_name(), "Direct");
    assert!(!engine.set_effect(usize::MAX));
    assert_eq!(engine.get_effect_name(), "Direct");
}

#[test]
fn engine_accepts_in_range_selection() {
    let mut engine = RgbControl::new();
    assert!(engine.set_effect(1));
    assert_eq!(engine.get_effect_name(), "Hue Rotate");
    assert!(engine.set_effect(0));
    assert_eq!(engine.get_effect_name(), "Direct");
}

#[test]
fn engine_lists_its_effects() {
    let engine = RgbControl::new();
    assert_eq!(engine.get_effects_name(), vec!["Direct".to_string(), "Hue Rotate".to_string()]);
}

#[test]
fn set_parameter_rejects_undeclared_name_and_keeps_map() {
    let mut effect = Effect::HueRotate(HueRotate::new());
    let before = effect.get_parameters();
    assert!(!effect.set_parameter("hue", ParameterTypes::Float(5)));
    assert_eq!(effect.get_parameters(), before);
    assert!(effect.set_parameter("speed", ParameterTypes::Float(5)));
    assert_ne!(effect.get_parameters(), before);
}

#[test]
fn direct_declares_only_its_color() {
    let mut effect = Direct::new();
    assert!(!effect.set_parameter("speed", ParameterTypes::Float(1)));
    assert!(effect.set_parameter("color", ParameterTypes::Color(RGBLedColor::new(1, 2, 3))));
    let c = effect.render();
    assert_eq!((c.red, c.green, c.blue), (1, 2, 3));
}

#[test]
fn decay_ramps_and_resets() {
    let mut effect = Decay::new();
    // one second at unit speed fills the ramp
    effect.update(1000);
    let c = effect.render();
    assert_eq!((c.red, c.green, c.blue), (255, 255, 255));
    // the next tick starts over
    effect.update(1);
    let c = effect.render();
    assert_eq!((c.red, c.green, c.blue), (0, 0, 0));
}

#[test]
fn end_to_end_hue_rotation() {
    let mut store = SettingsStore::new();
    let mut engine = RgbControl::new();
    assert!(engine.set_effect(1));
    assert_eq!(engine.get_effect_name(), "Hue Rotate");
    assert!(engine.set_effect_parameter("speed", ParameterTypes::Float(10_000), &mut store));
    assert!(engine.set_effect_parameter("saturation", ParameterTypes::Float(1000), &mut store));
    assert!(engine.set_effect_parameter("value", ParameterTypes::Float(1000), &mut store));
    // one second at speed 10 advances the hue to ten degrees
    let c = engine.update(1000);
    let expected = RGBLedColor::from_hsv(10_000, 1000, 1000);
    assert_eq!(c, expected);
    assert_eq!((c.red, c.green, c.blue), (255, 43, 0));
}

#[test]
fn store_gets_back_what_was_set() {
    let mut store = SettingsStore::new();
    assert_eq!(store.get_u32("ns", "k"), None);
    store.set_u32("ns", "k", 7);
    assert_eq!(store.get_u32("ns", "k"), Some(7));
    store.set_u32("ns", "k", 8);
    assert_eq!(store.get_u32("ns", "k"), Some(8));
    assert_eq!(store.get_u32("ns", "other"), None);
    assert_eq!(store.get_str("ns", "k"), None);
    store.set_str("ns", "k", "hello");
    assert_eq!(store.get_str("ns", "k"), Some("hello".to_string()));
    assert_eq!(store.get_str_or_default("ns", "k"), "hello");
    assert_eq!(store.get_str_or_default("ns", "missing"), "");
}

#[test]
fn effect_parameters_survive_save_and_init() {
    let mut store = SettingsStore::new();
    let mut effect = Effect::Direct(Direct::new());
    assert!(effect.set_parameter("color", ParameterTypes::Color(RGBLedColor::new(3, 2, 1))));
    effect.save(&mut store);
    let mut fresh = Effect::Direct(Direct::new());
    fresh.init(&store);
    assert_eq!(fresh.get_parameters(), effect.get_parameters());
}

#[test]
fn scalar_parameter_persists_raw() {
    let mut store = SettingsStore::new();
    let mut effect = Effect::Decay(Decay::new());
    assert!(effect.set_parameter("speed", ParameterTypes::Float(4242)));
    effect.save(&mut store);
    assert_eq!(store.get_u32("Decay", "speed"), Some(4242));
}

#[test]
fn engine_selection_persists() {
    let mut store = SettingsStore::new();
    let mut engine = RgbControl::new();
    assert!(engine.set_effect(1));
    engine.save_selection(&mut store);
    assert_eq!(store.get_u32("settings", "effect_index"), Some(1));
    let mut restarted = RgbControl::new();
    restarted.init(&store);
    assert_eq!(restarted.get_effect_name(), "Hue Rotate");
}

#[test]
fn engine_init_falls_back_on_bad_stored_index() {
    let mut store = SettingsStore::new();
    store.set_u32("settings", "effect_index", 9);
    let mut engine = RgbControl::new();
    engine.init(&store);
    assert_eq!(engine.get_effect_name(), "Direct");
    let mut untouched = RgbControl::new();
    untouched.init(&SettingsStore::new());
    assert_eq!(untouched.get_effect_name(), "Direct");
}

#[test]
fn dispatcher_frames_on_newline() {
    let mut dispatcher = RequestDispatcher::new();
    let mut frame = None;
    for b in b"\"GetName\"".iter() {
        frame = dispatcher.push_byte(*b);
        assert!(frame.is_none());
    }
    frame = dispatcher.push_byte(FRAME_TERMINATOR);
    assert_eq!(frame, Some(b"\"GetName\"".to_vec()));
    // the buffer starts over after a frame
    assert!(dispatcher.push_byte(b'x').is_none());
    assert_eq!(dispatcher.push_byte(FRAME_TERMINATOR), Some(b"x".to_vec()));
}

#[test]
fn respond_reports_the_device_name() {
    let mut store = SettingsStore::new();
    let mut engine = RgbControl::new();
    let reply = respond(&mut engine, &mut store, "\"GetName\"");
    assert_eq!(reply, Some(format!("\"{}\"\n", DEVICE_NAME)));
}

#[test]
fn respond_lists_effects_and_selection() {
    let mut store = SettingsStore::new();
    let mut engine = RgbControl::new();
    assert_eq!(
        respond(&mut engine, &mut store, "\"GetEffects\""),
        Some("[\"Direct\",\"Hue Rotate\"]\n".to_string())
    );
    assert_eq!(
        respond(&mut engine, &mut store, "\"GetEffect\""),
        Some("\"Direct\"\n".to_string())
    );
}

#[test]
fn respond_reports_selection_outcome() {
    let mut store = SettingsStore::new();
    let mut engine = RgbControl::new();
    assert_eq!(
        respond(&mut engine, &mut store, "{\"SetEffect\":1}"),
        Some("true\n".to_string())
    );
    assert_eq!(engine.get_effect_name(), "Hue Rotate");
    assert_eq!(
        respond(&mut engine, &mut store, "{\"SetEffect\":9}"),
        Some("false\n".to_string())
    );
    assert_eq!(engine.get_effect_name(), "Hue Rotate");
}

#[test]
fn respond_acknowledges_set_option_unconditionally() {
    let mut store = SettingsStore::new();
    let mut engine = RgbControl::new();
    let before = engine.get_effect_options();
    // the name is undeclared, yet the protocol acknowledges it
    let reply = respond(
        &mut engine,
        &mut store,
        "{\"SetOption\":[\"unheard\",{\"Float\":3}]}",
    );
    assert_eq!(reply, Some("true\n".to_string()));
    assert_eq!(engine.get_effect_options(), before);
}

#[test]
fn respond_drops_malformed_input() {
    let mut store = SettingsStore::new();
    let mut engine = RgbControl::new();
    assert_eq!(respond(&mut engine, &mut store, "not json"), None);
    assert_eq!(respond(&mut engine, &mut store, ""), None);
    assert_eq!(engine.get_effect_name(), "Direct");
}

#[test]
fn parse_argument_picks_tokens() {
    assert_eq!(parse_argument("a b c", 0).unwrap(), "a");
    assert_eq!(parse_argument("a b c", 1).unwrap(), "b");
    assert_eq!(parse_argument("  spaced\t words \r\n here ", 2).unwrap(), "here");
    let missing = parse_argument("a b c", 5).unwrap_err();
    assert_eq!(missing.0, 5);
    assert_eq!(missing.describe(), "argument at position 5 is missing");
    assert!(parse_argument("", 0).is_err());
    assert!(parse_argument("   ", 0).is_err());
}

#[test]
fn wifi_command_stores_credentials() {
    let mut store = SettingsStore::new();
    let outcome = execute_command("wifi homenet sekrit", &mut store).unwrap();
    assert_eq!(outcome, CommandOutcome::SettingsSaved);
    assert_eq!(store.get_str("wifi", "ssid"), Some("homenet".to_string()));
    assert_eq!(store.get_str("wifi", "password"), Some("sekrit".to_string()));
    let outcome = execute_command("ws net2 pw2", &mut store).unwrap();
    assert_eq!(outcome, CommandOutcome::SettingsSaved);
    assert_eq!(store.get_str("wifi", "ssid"), Some("net2".to_string()));
}

#[test]
fn wifi_command_reports_missing_arguments() {
    let mut store = SettingsStore::new();
    let missing_ssid = execute_command("wifi", &mut store).unwrap_err();
    assert_eq!(missing_ssid.0, 0);
    let missing_password = execute_command("wifisetup onlyssid", &mut store).unwrap_err();
    assert_eq!(missing_password.0, 1);
    assert_eq!(store.get_str("wifi", "ssid"), None);
}

#[test]
fn unknown_command_changes_nothing() {
    let mut store = SettingsStore::new();
    assert_eq!(
        execute_command("reboot now", &mut store).unwrap(),
        CommandOutcome::UnknownCommand
    );
    assert_eq!(execute_command("", &mut store).unwrap(), CommandOutcome::UnknownCommand);
    assert_eq!(store.get_str("wifi", "ssid"), None);
}

#[test]
fn hex_codec_round_trips() {
    assert_eq!(hex_string(255), "ff");
    assert_eq!(hex_string(0), "0");
    assert_eq!(hex_string(0x0A141E), "a141e");
    assert_eq!(parse_hex("ff"), Some(255));
    assert_eq!(parse_hex("FF"), Some(255));
    assert_eq!(parse_hex("a141e"), Some(0x0A141E));
    assert_eq!(parse_hex(""), None);
    assert_eq!(parse_hex("xyz"), None);
    assert_eq!(parse_hex("ffffffff"), Some(u32::MAX));
    assert_eq!(parse_hex("fffffffff"), None);
}

#[test]
fn color_command_parses_hex_colors() {
    let c = parse_color_command("color a141e").expect("a color line");
    assert_eq!((c.red, c.green, c.blue), (10, 20, 30));
    let c = parse_color_command("clr ff0000").expect("a color line");
    assert_eq!((c.red, c.green, c.blue), (255, 0, 0));
    assert!(parse_color_command("paint ff0000").is_none());
    assert!(parse_color_command("color zz").is_none());
    assert!(parse_color_command("color").is_none());
}

#[test]
fn legacy_controller_persists_its_color() {
    let mut store = SettingsStore::new();
    let mut control = legacy::RgbControl::new();
    assert_eq!(control.color, RGBLedColor::new(0, 0, 0));
    control.set_color(RGBLedColor::new(10, 20, 30), &mut store);
    assert_eq!(store.get_u32("rgb", "color"), Some(0x0A141E));
    let mut restarted = legacy::RgbControl::new();
    restarted.init(&store);
    assert_eq!(restarted.color, RGBLedColor::new(10, 20, 30));
}
