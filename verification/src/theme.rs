use crate::strmap::StrMap;
use crate::templates::ThemeTemplates;
use crate::value::ConfigValue;
use vstd::prelude::*;

verus! {

/// One option of a theme's configuration schema: its default value and what
/// it is for.
#[derive(Debug, PartialEq)]
pub struct ConfigOption {
    pub value: ConfigValue,
    pub description: String,
}

/// The identity of a theme and its configuration schema.
#[derive(Debug)]
pub struct ThemeInfo {
    pub name: String,
    pub version: String,
    pub author: String,
    pub description: String,
    pub config_schema: StrMap<ConfigOption>,
}

impl ThemeInfo {
    /// Name, version, author and description, in this order.
    pub fn as_data_row(&self) -> (r: [&String; 4])
        ensures
            r@ == seq![&self.name, &self.version, &self.author, &self.description],
    {
        let r = [&self.name, &self.version, &self.author, &self.description];
        assert(r@ =~= seq![&self.name, &self.version, &self.author, &self.description]);
        r
    }
}

/// The default values of a schema: each option's name with its default.
pub open spec fn defaults_of(schema: Map<Seq<char>, ConfigOption>) -> Map<Seq<char>, ConfigValue> {
    Map::new(|k: Seq<char>| schema.contains_key(k), |k: Seq<char>| schema[k].value)
}

/// A colour of a preview surface.
#[derive(Debug, Clone, Copy, PartialEq, Eq)]
pub enum Color {
    Reset,
    Black,
    Red,
    Green,
    Yellow,
    Blue,
    Magenta,
    Cyan,
    Gray,
    DarkGray,
    LightRed,
    LightGreen,
    LightYellow,
    LightBlue,
    LightMagenta,
    LightCyan,
    White,
    /// Red, green and blue components.
    Rgb(u8, u8, u8),
    /// An index into the terminal's palette.
    Indexed(u8),
}

/// How a preview surface displays a theme: colours and emphasis. The two
/// modifier fields are bit sets of text attributes to switch on and off.
#[derive(Debug, Clone, Copy, PartialEq, Eq)]
pub struct PreviewStyle {
    pub fg: Option<Color>,
    pub bg: Option<Color>,
    pub add_modifier: u16,
    pub sub_modifier: u16,
}

/// A theme: its metadata, its templates, its assets by relative path, and
/// its preview style. A theme carries no state; it is built anew for each
/// query.
#[derive(Debug)]
pub struct Theme {
    pub info: ThemeInfo,
    pub templates: ThemeTemplates,
    pub assets: StrMap<Vec<u8>>,
    pub preview_style: PreviewStyle,
}

impl Theme {
    /// The theme's metadata and configuration schema.
    pub fn info(&self) -> (r: &ThemeInfo)
        ensures
            *r == self.info,
    {
        &self.info
    }

    /// The theme's templates, the base template first.
    pub fn templates(&self) -> (r: &ThemeTemplates)
        ensures
            *r == self.templates,
    {
        &self.templates
    }

    /// The theme's assets: raw content by relative path.
    pub fn assets(&self) -> (r: &StrMap<Vec<u8>>)
        ensures
            *r == self.assets,
    {
        &self.assets
    }

    /// The style in which a preview surface shows the theme.
    pub fn preview_tui_style(&self) -> (r: PreviewStyle)
        ensures
            r == self.preview_style,
    {
        self.preview_style
    }
}

} // verus!
