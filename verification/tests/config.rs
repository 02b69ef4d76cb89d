use blogr_themes::config::{apply_theme, merge_defaults, set_theme, ProjectThemeConfig};
use blogr_themes::registry::{ThemeError, ThemeRegistry};
use blogr_themes::strmap::StrMap;
use blogr_themes::templates::ThemeTemplates;
use blogr_themes::theme::{ConfigOption, PreviewStyle, Theme, ThemeInfo};
use blogr_themes::value::ConfigValue;

fn text(s: &str) -> ConfigValue {
    ConfigValue::String(s.to_string())
}

fn option(value: ConfigValue) -> ConfigOption {
    ConfigOption { value, description: "an option".to_string() }
}

fn retro_schema() -> StrMap<ConfigOption> {
    let mut schema: StrMap<ConfigOption> = StrMap::new();
    schema.insert("accent_color".to_string(), option(text("red")));
    schema.insert("font_size".to_string(), option(ConfigValue::Integer(14)));
    schema
}

fn retro_info() -> ThemeInfo {
    ThemeInfo {
        name: "minimal-retro".to_string(),
        version: "1.0.0".to_string(),
        author: "Blogr Team".to_string(),
        description: "Retro".to_string(),
        config_schema: retro_schema(),
    }
}

fn retro_theme() -> Theme {
    Theme {
        info: retro_info(),
        templates: ThemeTemplates::new("base.html", "BASE"),
        assets: StrMap::new(),
        preview_style: PreviewStyle { fg: None, bg: None, add_modifier: 0, sub_modifier: 0 },
    }
}

fn old_config() -> ProjectThemeConfig {
    let mut config: StrMap<ConfigValue> = StrMap::new();
    config.insert("accent_color".to_string(), text("blue"));
    ProjectThemeConfig { name: "old".to_string(), config }
}

fn entries(config: &StrMap<ConfigValue>) -> Vec<(String, String)> {
    let mut out = Vec::new();
    for i in 0..config.len() {
        out.push((config.key_at(i).clone(), format!("{:?}", config.value_at(i))));
    }
    out
}

#[test]
fn switching_keeps_user_values_and_fills_defaults() {
    let mut config = old_config();
    apply_theme(&mut config, "minimal-retro".to_string(), retro_info());
    assert_eq!(config.name, "minimal-retro");
    assert_eq!(config.config.len(), 2);
    assert_eq!(config.config.get("accent_color"), Some(&text("blue")));
    assert_eq!(config.config.get("font_size"), Some(&ConfigValue::Integer(14)));
}

#[test]
fn set_theme_switches_through_the_registry() {
    let registry = ThemeRegistry::new(vec![retro_theme()]).unwrap();
    let mut config = old_config();
    assert_eq!(set_theme(registry, &mut config, "minimal-retro"), Ok(()));
    assert_eq!(config.name, "minimal-retro");
    assert_eq!(config.config.get("accent_color"), Some(&text("blue")));
    assert_eq!(config.config.get("font_size"), Some(&ConfigValue::Integer(14)));
    assert_eq!(config.config.len(), 2);
}

#[test]
fn set_theme_takes_the_requested_spelling_as_name() {
    let registry = ThemeRegistry::new(vec![retro_theme()]).unwrap();
    let mut config = old_config();
    assert_eq!(set_theme(registry, &mut config, "Minimal-RETRO"), Ok(()));
    assert_eq!(config.name, "Minimal-RETRO");
    assert_eq!(config.config.get("font_size"), Some(&ConfigValue::Integer(14)));
}

#[test]
fn unknown_theme_leaves_the_config_untouched() {
    let registry = ThemeRegistry::new(vec![retro_theme()]).unwrap();
    let mut config = old_config();
    let before = entries(&config.config);
    assert_eq!(set_theme(registry, &mut config, "nothing"), Err(ThemeError::NotFound));
    assert_eq!(config.name, "old");
    assert_eq!(entries(&config.config), before);
}

#[test]
fn merging_twice_is_merging_once() {
    let mut config = old_config();
    apply_theme(&mut config, "minimal-retro".to_string(), retro_info());
    let once = entries(&config.config);
    apply_theme(&mut config, "minimal-retro".to_string(), retro_info());
    assert_eq!(entries(&config.config), once);
    assert_eq!(config.name, "minimal-retro");
}

#[test]
fn merge_never_overwrites() {
    let mut config: StrMap<ConfigValue> = StrMap::new();
    config.insert("font_size".to_string(), text("large"));
    config.insert("accent_color".to_string(), ConfigValue::Boolean(false));
    merge_defaults(&mut config, retro_schema());
    assert_eq!(config.get("font_size"), Some(&text("large")));
    assert_eq!(config.get("accent_color"), Some(&ConfigValue::Boolean(false)));
    assert_eq!(config.len(), 2);
}

#[test]
fn merge_fills_every_schema_key() {
    let mut config: StrMap<ConfigValue> = StrMap::new();
    merge_defaults(&mut config, retro_schema());
    assert!(config.contains_key("accent_color"));
    assert!(config.contains_key("font_size"));
    assert_eq!(config.get("accent_color"), Some(&text("red")));
    assert_eq!(config.get("font_size"), Some(&ConfigValue::Integer(14)));
    assert_eq!(config.len(), 2);
}

#[test]
fn merge_keeps_keys_that_the_schema_does_not_know() {
    let mut config: StrMap<ConfigValue> = StrMap::new();
    config.insert("sidebar".to_string(), ConfigValue::Boolean(true));
    config.insert("accent_color".to_string(), text("blue"));
    merge_defaults(&mut config, retro_schema());
    assert_eq!(config.get("sidebar"), Some(&ConfigValue::Boolean(true)));
    assert_eq!(config.get("accent_color"), Some(&text("blue")));
    assert_eq!(config.get("font_size"), Some(&ConfigValue::Integer(14)));
    assert_eq!(config.len(), 3);
    assert_eq!(config.key_at(0), "sidebar");
    assert_eq!(config.key_at(1), "accent_color");
    assert_eq!(config.key_at(2), "font_size");
}

#[test]
fn merge_of_an_empty_schema_changes_nothing() {
    let mut config = old_config();
    let before = entries(&config.config);
    merge_defaults(&mut config.config, StrMap::new());
    assert_eq!(entries(&config.config), before);
}

#[test]
fn switching_back_finds_the_old_values() {
    let mut other: StrMap<ConfigOption> = StrMap::new();
    other.insert("columns".to_string(), option(ConfigValue::Integer(2)));
    let other_info = ThemeInfo {
        name: "obsidian".to_string(),
        version: "1.0.0".to_string(),
        author: "Blogr Team".to_string(),
        description: "Dark".to_string(),
        config_schema: other,
    };
    let mut config = old_config();
    apply_theme(&mut config, "minimal-retro".to_string(), retro_info());
    apply_theme(&mut config, "obsidian".to_string(), other_info);
    assert_eq!(config.name, "obsidian");
    apply_theme(&mut config, "minimal-retro".to_string(), retro_info());
    assert_eq!(config.name, "minimal-retro");
    assert_eq!(config.config.get("accent_color"), Some(&text("blue")));
    assert_eq!(config.config.get("font_size"), Some(&ConfigValue::Integer(14)));
    assert_eq!(config.config.get("columns"), Some(&ConfigValue::Integer(2)));
    assert_eq!(config.config.len(), 3);
}
