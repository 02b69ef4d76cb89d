use blogr_themes::preview::{color_samples, contains_text, with_spaces, ColorSample};
use blogr_themes::strmap::StrMap;
use blogr_themes::theme::ConfigOption;
use blogr_themes::value::ConfigValue;

fn option(value: ConfigValue) -> ConfigOption {
    ConfigOption { value, description: "an option".to_string() }
}

#[test]
fn contains_text_finds_a_run_of_characters() {
    assert!(contains_text("primary_color", "color"));
    assert!(contains_text("color", "color"));
    assert!(contains_text("colorful_header", "color"));
    assert!(contains_text("xcolorx", "color"));
    assert!(contains_text("färg_color", "color"));
    assert!(contains_text("cocolor", "color"));
}

#[test]
fn contains_text_rejects_what_is_not_there() {
    assert!(!contains_text("colour", "color"));
    assert!(!contains_text("COLOR", "color"));
    assert!(!contains_text("colo", "color"));
    assert!(!contains_text("", "color"));
    assert!(!contains_text("c_o_l_o_r", "color"));
}

#[test]
fn the_empty_text_is_everywhere() {
    assert!(contains_text("", ""));
    assert!(contains_text("abc", ""));
}

#[test]
fn with_spaces_replaces_every_underscore() {
    assert_eq!(with_spaces("primary_color"), "primary color");
    assert_eq!(with_spaces("__a__"), "  a  ");
    assert_eq!(with_spaces(""), "");
    assert_eq!(with_spaces("plain"), "plain");
    assert_eq!(with_spaces("é_ü"), "é ü");
    assert_eq!(with_spaces("a-b c"), "a-b c");
}

#[test]
fn color_samples_pick_the_colour_options_in_order() {
    let mut schema: StrMap<ConfigOption> = StrMap::new();
    schema.insert("font_size".to_string(), option(ConfigValue::Integer(14)));
    schema.insert("primary_color".to_string(), option(ConfigValue::String("#f00".to_string())));
    schema.insert("show_sidebar".to_string(), option(ConfigValue::Boolean(true)));
    schema.insert("background_color".to_string(), option(ConfigValue::String("#000".to_string())));
    assert_eq!(
        color_samples(&schema),
        vec![
            ColorSample { index: 1, label: "primary color".to_string() },
            ColorSample { index: 3, label: "background color".to_string() }
        ]
    );
}

#[test]
fn color_samples_of_a_schema_without_colours_are_empty() {
    let mut schema: StrMap<ConfigOption> = StrMap::new();
    schema.insert("font_size".to_string(), option(ConfigValue::Integer(14)));
    assert_eq!(color_samples(&schema), Vec::<ColorSample>::new());
    let empty: StrMap<ConfigOption> = StrMap::new();
    assert_eq!(color_samples(&empty), Vec::<ColorSample>::new());
}
