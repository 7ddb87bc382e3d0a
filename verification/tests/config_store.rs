use combat_overlay::codec::{decode_config, encode_config};
use combat_overlay::config::{
    default_auto_showhide_ui, default_defender_exclusion, default_font_sizes,
    default_streamer_mode, default_streamer_msg, default_widget_opacity, Config, FontFamily,
    TextRole, ThemeMode,
};

#[test]
fn defaults_are_fully_populated() {
    let c = Config::default();
    assert_eq!(c.version, "");
    assert_eq!(c.locale, "en");
    assert_eq!(c.widget_opacity, default_widget_opacity());
    assert_eq!(c.widget_opacity, 30);
    assert_eq!(c.streamer_mode, default_streamer_mode());
    assert_eq!(c.streamer_msg, default_streamer_msg());
    assert_eq!(c.font_sizes, default_font_sizes());
    assert_eq!(c.font_sizes.heading.size_tenths, 180);
    assert_eq!(c.font_sizes.monospace.family, FontFamily::Monospace);
    assert_eq!(c.theme_mode, ThemeMode::Dark);
    assert_eq!(c.legend_text_style, TextRole::Monospace);
    assert_eq!(c.pie_chart_opacity, 5);
    assert_eq!(c.defender_exclusion, default_defender_exclusion());
    assert_eq!(c.auto_showhide_ui, default_auto_showhide_ui());
}

fn assert_configs_equal(a: &Config, b: &Config) {
    assert_eq!(a.version, b.version);
    assert_eq!(a.locale, b.locale);
    assert_eq!(a.widget_opacity, b.widget_opacity);
    assert_eq!(a.streamer_mode, b.streamer_mode);
    assert_eq!(a.streamer_msg, b.streamer_msg);
    assert_eq!(a.font_sizes, b.font_sizes);
    assert_eq!(a.theme, b.theme);
    assert_eq!(a.theme_mode, b.theme_mode);
    assert_eq!(a.legend_text_style, b.legend_text_style);
    assert_eq!(a.pie_chart_opacity, b.pie_chart_opacity);
    assert_eq!(a.defender_exclusion, b.defender_exclusion);
    assert_eq!(a.auto_showhide_ui, b.auto_showhide_ui);
}

#[test]
fn round_trip_of_defaults() {
    let c = Config::default();
    let text = encode_config(&c);
    let d = decode_config(text.as_str()).expect("canonical text must decode");
    assert_configs_equal(&c, &d);
}

#[test]
fn round_trip_of_customized_record() {
    let mut c = Config::default();
    c.version = String::from("1.2.3");
    c.locale = String::from("zh-CN");
    c.widget_opacity = 100;
    c.streamer_mode = false;
    c.streamer_msg = String::from("hello there, chat!");
    c.font_sizes.small.size_tenths = 95;
    c.theme = 4294967295;
    c.theme_mode = ThemeMode::Light;
    c.legend_text_style = TextRole::Button;
    c.pie_chart_opacity = 0;
    c.defender_exclusion = false;
    c.auto_showhide_ui = true;
    let text = encode_config(&c);
    let d = decode_config(text.as_str()).expect("canonical text must decode");
    assert_configs_equal(&c, &d);
    // Re-encoding the decoded record reproduces the same text.
    assert_eq!(encode_config(&d), text);
}

#[test]
fn corrupt_text_is_rejected() {
    assert!(decode_config("").is_none());
    assert!(decode_config("garbage bytes \u{1}\u{2}").is_none());
    assert!(decode_config("{\"version\":\"x\"").is_none());
    let truncated = &encode_config(&Config::default())[..40];
    assert!(decode_config(truncated).is_none());
}

#[test]
fn empty_record_decodes_to_full_defaults() {
    let c = decode_config("{}").expect("an empty record is a record");
    assert_configs_equal(&c, &Config::default());
}

#[test]
fn absent_fields_take_defaults_and_present_fields_survive() {
    // A file from an older version that only knows a version field
    // keeps that field; every absent field takes its default.
    let c = decode_config("{\"version\":\"0.9\"}").expect("a partial record decodes");
    assert_eq!(c.version, "0.9");
    assert_eq!(c.locale, "en");
    assert_eq!(c.widget_opacity, 30);
    assert_eq!(c.font_sizes, default_font_sizes());
    let c2 = decode_config("{\"streamer_mode\":false,\"pie_chart_opacity\":42}")
        .expect("a partial record decodes");
    assert!(!c2.streamer_mode);
    assert_eq!(c2.pie_chart_opacity, 42);
    assert_eq!(c2.version, "");
    assert_eq!(c2.theme_mode, ThemeMode::Dark);
}

#[test]
fn field_order_is_free() {
    let c = decode_config("{\"locale\":\"fr\",\"version\":\"2\"}").expect("reordered fields decode");
    assert_eq!(c.locale, "fr");
    assert_eq!(c.version, "2");
}

#[test]
fn duplicate_and_unknown_fields_are_rejected() {
    assert!(decode_config("{\"theme\":1,\"theme\":2}").is_none());
    assert!(decode_config("{\"volume\":3}").is_none());
}

#[test]
fn tampered_text_is_rejected_whole() {
    let text = encode_config(&Config::default());
    let tampered = text.replace("\"streamer_mode\":true", "\"streamer_mode\":maybe");
    assert_ne!(text, tampered);
    assert!(decode_config(tampered.as_str()).is_none());
    let overflow = text.replace("\"widget_opacity\":30", "\"widget_opacity\":101");
    assert!(decode_config(overflow.as_str()).is_none());
    let huge = text.replace("\"theme\":0", "\"theme\":99999999999");
    assert!(decode_config(huge.as_str()).is_none());
}

#[test]
fn trailing_garbage_is_rejected() {
    let mut text = encode_config(&Config::default());
    text.push_str("x");
    assert!(decode_config(text.as_str()).is_none());
}

#[test]
fn recovery_regenerates_defaults_and_a_valid_file() {
    // A corrupt file fails to decode, so the load resolves to a fresh
    // record that must be written back.
    let parsed = decode_config("\u{0}corrupt\u{7f}");
    assert!(parsed.is_none());
    let (fresh, rewrite) = Config::resolve_loaded(parsed, ThemeMode::Dark, "en");
    assert!(rewrite);
    let expected = Config::initialize(ThemeMode::Dark, "en");
    assert_configs_equal(&fresh, &expected);
    // The regenerated text on disk decodes back to the same record.
    let text = encode_config(&fresh);
    let reread = decode_config(text.as_str()).expect("regenerated file must decode");
    assert_configs_equal(&fresh, &reread);
}

#[test]
fn resolve_keeps_a_record_that_parsed() {
    let mut stored = Config::default();
    stored.widget_opacity = 55;
    let (kept, rewrite) = Config::resolve_loaded(Some(stored), ThemeMode::Light, "fr");
    assert!(!rewrite);
    assert_eq!(kept.widget_opacity, 55);
    assert_eq!(kept.locale, "en");
}

#[test]
fn initialize_raises_opacity_in_light_mode() {
    let light = Config::initialize(ThemeMode::Light, "en");
    assert_eq!(light.widget_opacity, 75);
    assert_eq!(light.theme_mode, ThemeMode::Light);
    let dark = Config::initialize(ThemeMode::Dark, "ja");
    assert_eq!(dark.widget_opacity, 30);
    assert_eq!(dark.theme_mode, ThemeMode::Dark);
    assert_eq!(dark.locale, "ja");
}
