use vstd::prelude::*;

verus! {

/// The built-in themes: a closed set. An identifier stands for a theme;
/// the theme itself is built anew whenever it is asked for.
#[derive(Debug, Clone, Copy, PartialEq, Eq)]
pub enum BuiltinTheme {
    MinimalRetro,
    Obsidian,
    TerminalCandy,
    DarkMinimal,
    Musashi,
    SlatePortfolio,
    Typewriter,
    Brutja,
}

/// The built-in themes in the order in which they are listed.
pub open spec fn builtin_order() -> Seq<BuiltinTheme> {
    seq![
        BuiltinTheme::MinimalRetro,
        BuiltinTheme::Obsidian,
        BuiltinTheme::TerminalCandy,
        BuiltinTheme::DarkMinimal,
        BuiltinTheme::Musashi,
        BuiltinTheme::SlatePortfolio,
        BuiltinTheme::Typewriter,
        BuiltinTheme::Brutja,
    ]
}

/// The place of a built-in theme in the listing order.
pub open spec fn place_of(theme: BuiltinTheme) -> int {
    match theme {
        BuiltinTheme::MinimalRetro => 0,
        BuiltinTheme::Obsidian => 1,
        BuiltinTheme::TerminalCandy => 2,
        BuiltinTheme::DarkMinimal => 3,
        BuiltinTheme::Musashi => 4,
        BuiltinTheme::SlatePortfolio => 5,
        BuiltinTheme::Typewriter => 6,
        BuiltinTheme::Brutja => 7,
    }
}

/// Every built-in theme is listed, and listed once: it stands at its place
/// and nowhere else.
pub proof fn every_theme_listed_once(theme: BuiltinTheme, i: int)
    requires
        0 <= i < builtin_order().len(),
    ensures
        builtin_order().len() == 8,
        0 <= place_of(theme) < builtin_order().len(),
        builtin_order()[place_of(theme)] == theme,
        builtin_order()[i] == theme ==> i == place_of(theme),
{
}

/// Every built-in theme, in a fixed order that is the same at every call.
#[must_use]
pub fn get_all_themes() -> (r: Vec<BuiltinTheme>)
    ensures
        r@ == builtin_order(),
{
    let r = vec![
        BuiltinTheme::MinimalRetro,
        BuiltinTheme::Obsidian,
        BuiltinTheme::TerminalCandy,
        BuiltinTheme::DarkMinimal,
        BuiltinTheme::Musashi,
        BuiltinTheme::SlatePortfolio,
        BuiltinTheme::Typewriter,
        BuiltinTheme::Brutja,
    ];
    assert(r@ =~= builtin_order());
    r
}

} // verus!
