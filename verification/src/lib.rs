//! A theme engine: theme metadata, ordered template bundles, a registry with
//! case-insensitive lookup, and the merge of a theme's defaults into a
//! project's configuration.

pub mod catalog;
pub mod config;
pub mod listing;
pub mod preview;
pub mod registry;
pub mod strmap;
pub mod templates;
pub mod text;
pub mod theme;
pub mod value;

pub use catalog::{get_all_themes, BuiltinTheme};
pub use config::{apply_theme, merge_defaults, set_theme, ProjectThemeConfig};
pub use listing::{describe_theme, is_active, list_themes, ThemeDescription, ThemeListing};
pub use registry::{
    all_distinct, first_index_of, get_theme, get_theme_by_name, has_unique_names, lowered_names,
    ThemeError, ThemeRegistry,
};
pub use strmap::StrMap;
pub use templates::ThemeTemplates;
pub use theme::{Color, ConfigOption, PreviewStyle, Theme, ThemeInfo};
pub use value::ConfigValue;
pub use preview::{color_samples, contains_text, with_spaces, ColorSample};
