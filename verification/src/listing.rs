use crate::registry::{first_match, names_unique, ThemeRegistry};
use crate::text::{names_match, same_name};
use crate::theme::Theme;
use vstd::prelude::*;

verus! {

/// A theme is the active one when the project has a current theme and its
/// name is the same as the theme's, letter case aside.
pub open spec fn active_for(name: Seq<char>, current: Option<Seq<char>>) -> bool {
    match current {
        Some(c) => same_name(name, c),
        None => false,
    }
}

/// The name that a project's current theme has, as a sequence of characters.
pub open spec fn current_view(current: Option<&str>) -> Option<Seq<char>> {
    match current {
        Some(c) => Some(c@),
        None => None,
    }
}

/// Whether the theme named `name` is the project's current one. Without a
/// project there is no current theme, and no theme is active.
pub fn is_active(name: &str, current: Option<&str>) -> (r: bool)
    ensures
        r == active_for(name@, current_view(current)),
{
    match current {
        Some(c) => names_match(name, c),
        None => false,
    }
}

/// Without a current theme nothing is active; with one, among unique names
/// at most one theme is: where the theme at `i` is active, no other is.
pub proof fn at_most_one_active(names: Seq<Seq<char>>, current: Option<Seq<char>>, i: int, j: int)
    requires
        names_unique(names),
        0 <= i < names.len(),
        0 <= j < names.len(),
        i != j,
    ensures
        current.is_none() ==> !active_for(names[i], current),
        active_for(names[i], current) ==> !active_for(names[j], current),
{
    if active_for(names[i], current) && active_for(names[j], current) {
        if i < j {
            assert(!same_name(names[i], names[j]));
        } else {
            assert(!same_name(names[j], names[i]));
        }
    }
}

/// One line of a listing of themes.
#[derive(Debug, Clone, PartialEq, Eq)]
pub struct ThemeListing {
    pub name: String,
    pub author: String,
    pub version: String,
    pub description: String,
    /// Whether this theme is the project's current one.
    pub active: bool,
}

/// What a listing says of one theme, given the project's current theme.
pub open spec fn lists(line: ThemeListing, theme: Theme, current: Option<Seq<char>>) -> bool {
    &&& line.name@ == theme.info.name@
    &&& line.author@ == theme.info.author@
    &&& line.version@ == theme.info.version@
    &&& line.description@ == theme.info.description@
    &&& line.active == active_for(theme.info.name@, current)
}

/// Lists every theme of the registry, in the registry's order, with its
/// name, author, version and description, and marks the active one.
pub fn list_themes(registry: &ThemeRegistry, current: Option<&str>) -> (r: Vec<ThemeListing>)
    ensures
        r@.len() == registry@.len(),
        forall|i: int| 0 <= i < r@.len() ==> lists(#[trigger] r@[i], registry@[i], current_view(current)),
{
    let themes = registry.list();
    let mut lines: Vec<ThemeListing> = Vec::new();
    let mut i: usize = 0;
    while i < themes.len()
        invariant
            i <= themes@.len(),
            themes@ == registry@,
            lines@.len() == i,
            forall|j: int| 0 <= j < i ==> lists(#[trigger] lines@[j], themes@[j], current_view(current)),
        decreases themes@.len() - i,
    {
        let info = &themes[i].info;
        let line = ThemeListing {
            name: info.name.clone(),
            author: info.author.clone(),
            version: info.version.clone(),
            description: info.description.clone(),
            active: is_active(info.name.as_str(), current),
        };
        lines.push(line);
        i += 1;
    }
    lines
}

/// A theme found by name, with its activation status. The theme gives its
/// metadata and full schema, its templates, assets and preview style.
pub struct ThemeDescription<'a> {
    pub theme: &'a Theme,
    /// Whether this theme is the project's current one.
    pub active: bool,
}

/// Looks up the theme that `name` denotes, letter case aside, and says
/// whether it is the project's current theme. The theme need not be active
/// to be described. None where the registry has no such theme.
pub fn describe_theme<'a>(registry: &'a ThemeRegistry, name: &str, current: Option<&str>) -> (r:
    Option<ThemeDescription<'a>>)
    ensures
        match first_match(registry.names(), name@) {
            Some(i) => {
                &&& 0 <= i < registry@.len()
                &&& r is Some
                &&& r.unwrap().theme == &registry@[i]
                &&& r.unwrap().active == active_for(
                    registry@[i].info.name@,
                    current_view(current),
                )
            },
            None => r is None,
        },
{
    match registry.find(name) {
        Some(theme) => {
            let active = is_active(theme.info.name.as_str(), current);
            Some(ThemeDescription { theme, active })
        },
        None => None,
    }
}

} // verus!
