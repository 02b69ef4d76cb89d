use crate::text::{lowercase, same_name, to_lowercase};
use crate::theme::Theme;
use vstd::prelude::*;

verus! {

/// Why a request on the theme engine was turned down.
#[derive(Debug, PartialEq, Eq, Clone, Copy)]
pub enum ThemeError {
    /// No theme of the registry has the requested name.
    NotFound,
    /// Two themes have the same name, letter case aside.
    DuplicateName,
}

/// The names of a sequence of themes, in order.
pub open spec fn names_of(themes: Seq<Theme>) -> Seq<Seq<char>> {
    Seq::new(themes.len(), |i: int| themes[i].info.name@)
}

/// No two of the names are the same, letter case aside.
pub open spec fn names_unique(names: Seq<Seq<char>>) -> bool {
    forall|i: int, j: int| 0 <= i < j < names.len() ==> !same_name(names[i], names[j])
}

/// Position `i` holds the first of the names that matches `name`.
pub open spec fn is_first_match(names: Seq<Seq<char>>, name: Seq<char>, i: int) -> bool {
    &&& 0 <= i < names.len()
    &&& same_name(names[i], name)
    &&& forall|j: int| 0 <= j < i ==> !same_name(names[j], name)
}

/// The position of the first of the names that matches `name`, letter case
/// aside, if one does.
pub open spec fn first_match(names: Seq<Seq<char>>, name: Seq<char>) -> Option<int> {
    if exists|i: int| is_first_match(names, name, i) {
        Some(choose|i: int| is_first_match(names, name, i))
    } else {
        None
    }
}

/// There is at most one first match: a position that is one is the result.
pub proof fn lemma_first_match_at(names: Seq<Seq<char>>, name: Seq<char>, i: int)
    requires
        is_first_match(names, name, i),
    ensures
        first_match(names, name) == Some(i),
{
    let c = choose|c: int| is_first_match(names, name, c);
    assert(is_first_match(names, name, c));
    assert(c == i) by {
        if c < i {
            assert(!same_name(names[c], name));
        }
        if i < c {
            assert(!same_name(names[i], name));
        }
    }
}

/// Where no name matches, there is no first match.
pub proof fn lemma_no_match(names: Seq<Seq<char>>, name: Seq<char>)
    requires
        forall|j: int| 0 <= j < names.len() ==> !same_name(names[j], name),
    ensures
        first_match(names, name).is_none(),
{
}

/// Lookup does not depend on letter case: two requested names that are
/// the same, letter case aside, find the same theme or both find none.
pub proof fn lookup_ignores_case(names: Seq<Seq<char>>, a: Seq<char>, b: Seq<char>)
    requires
        same_name(a, b),
    ensures
        first_match(names, a) == first_match(names, b),
{
    assert forall|i: int| is_first_match(names, a, i) == is_first_match(names, b, i) by {
        assert(forall|j: int| same_name(names[j], a) == same_name(names[j], b));
    }
    if exists|i: int| is_first_match(names, a, i) {
        let i = choose|i: int| is_first_match(names, a, i);
        assert(is_first_match(names, b, i));
        lemma_first_match_at(names, a, i);
        lemma_first_match_at(names, b, i);
    } else {
        assert(!exists|i: int| is_first_match(names, b, i));
    }
}

/// Among unique names at most one matches a requested name: where the name
/// at `i` matches, no other does.
pub proof fn unique_names_match_once(names: Seq<Seq<char>>, name: Seq<char>, i: int, j: int)
    requires
        names_unique(names),
        0 <= i < names.len(),
        0 <= j < names.len(),
        i != j,
        same_name(names[i], name),
    ensures
        !same_name(names[j], name),
{
    if same_name(names[j], name) {
        if i < j {
            assert(!same_name(names[i], names[j]));
        } else {
            assert(!same_name(names[j], names[i]));
        }
    }
}

/// The position of the first of `keys` that equals `key`, if one does.
pub fn first_index_of(keys: &Vec<String>, key: &String) -> (r: Option<usize>)
    ensures
        match r {
            Some(i) => {
                &&& i < keys@.len()
                &&& keys@[i as int]@ == key@
                &&& forall|j: int| 0 <= j < i ==> keys@[j]@ != key@
            },
            None => forall|j: int| 0 <= j < keys@.len() ==> keys@[j]@ != key@,
        },
{
    let mut i: usize = 0;
    while i < keys.len()
        invariant
            i <= keys@.len(),
            forall|j: int| 0 <= j < i ==> keys@[j]@ != key@,
        decreases keys@.len() - i,
    {
        if keys[i] == *key {
            return Some(i);
        }
        i += 1;
    }
    None
}

/// Whether no two of `keys` are equal.
pub fn all_distinct(keys: &Vec<String>) -> (r: bool)
    ensures
        r == (forall|a: int, b: int| 0 <= a < b < keys@.len() ==> keys@[a]@ != keys@[b]@),
{
    let mut j: usize = 0;
    while j < keys.len()
        invariant
            j <= keys@.len(),
            forall|a: int, b: int| 0 <= a < b < j ==> keys@[a]@ != keys@[b]@,
        decreases keys@.len() - j,
    {
        let mut i: usize = 0;
        while i < j
            invariant
                i <= j,
                j < keys@.len(),
                forall|a: int| 0 <= a < i ==> keys@[a]@ != keys@[j as int]@,
            decreases j - i,
        {
            if keys[i] == keys[j] {
                return false;
            }
            i += 1;
        }
        j += 1;
    }
    true
}

/// The lowercase forms of the themes' names, in the themes' order.
pub fn lowered_names(themes: &Vec<Theme>) -> (r: Vec<String>)
    ensures
        r@.len() == themes@.len(),
        forall|i: int| 0 <= i < r@.len() ==> (#[trigger] r@[i])@ == lowercase(themes@[i].info.name@),
{
    let mut lowered: Vec<String> = Vec::new();
    let mut i: usize = 0;
    while i < themes.len()
        invariant
            i <= themes@.len(),
            lowered@.len() == i,
            forall|j: int|
                0 <= j < i ==> (#[trigger] lowered@[j])@ == lowercase(themes@[j].info.name@),
        decreases themes@.len() - i,
    {
        lowered.push(to_lowercase(themes[i].info.name.as_str()));
        i += 1;
    }
    lowered
}

/// Whether no two of the themes have the same name, letter case aside.
pub fn has_unique_names(themes: &Vec<Theme>) -> (r: bool)
    ensures
        r == names_unique(names_of(themes@)),
{
    let lowered = lowered_names(themes);
    let r = all_distinct(&lowered);
    proof {
        let names = names_of(themes@);
        if r {
            assert forall|a: int, b: int| 0 <= a < b < names.len() implies !same_name(
                names[a],
                names[b],
            ) by {
                assert(lowered@[a]@ != lowered@[b]@);
            }
        } else {
            let (a, b) = choose|a: int, b: int|
                0 <= a < b < lowered@.len() && lowered@[a]@ == lowered@[b]@;
            assert(same_name(names[a], names[b]));
        }
    }
    r
}

/// The catalogue of themes. No two of its themes have the same name, letter
/// case aside.
#[derive(Debug)]
pub struct ThemeRegistry {
    themes: Vec<Theme>,
}

impl ThemeRegistry {
    /// The themes, in the registry's fixed order.
    pub closed spec fn view(&self) -> Seq<Theme> {
        self.themes@
    }

    /// The names of the themes, in the registry's order.
    pub open spec fn names(&self) -> Seq<Seq<char>> {
        names_of(self@)
    }

    /// The names are unique. This holds of every registry that a program
    /// can hold.
    #[verifier::type_invariant]
    pub open spec fn wf(&self) -> bool {
        names_unique(self.names())
    }

    /// A registry of the given themes, in their order. It is refused where
    /// two of them have the same name, letter case aside.
    pub fn new(themes: Vec<Theme>) -> (r: Result<ThemeRegistry, ThemeError>)
        ensures
            match r {
                Ok(registry) => names_unique(names_of(themes@)) && registry@ == themes@,
                Err(e) => !names_unique(names_of(themes@)) && e == ThemeError::DuplicateName,
            },
    {
        if has_unique_names(&themes) {
            Ok(ThemeRegistry { themes })
        } else {
            Err(ThemeError::DuplicateName)
        }
    }

    /// Every theme of the registry, in its fixed order. No two of them have
    /// the same name, letter case aside.
    pub fn list(&self) -> (r: &Vec<Theme>)
        ensures
            r@ == self@,
            names_unique(names_of(r@)),
    {
        proof {
            use_type_invariant(self);
        }
        &self.themes
    }

    /// The number of themes.
    pub fn len(&self) -> (r: usize)
        ensures
            r == self@.len(),
    {
        self.themes.len()
    }

    /// The position of the theme that `name` denotes, letter case aside.
    /// No other theme of the registry matches `name`.
    pub fn position(&self, name: &str) -> (r: Option<usize>)
        ensures
            match r {
                Some(i) => {
                    &&& i < self@.len()
                    &&& first_match(self.names(), name@) == Some(i as int)
                    &&& forall|j: int|
                        0 <= j < self@.len() && j != i ==> !same_name(self.names()[j], name@)
                },
                None => first_match(self.names(), name@).is_none(),
            },
    {
        let ghost names = self.names();
        proof {
            use_type_invariant(self);
        }
        let lowered = lowered_names(&self.themes);
        let wanted = to_lowercase(name);
        let r = first_index_of(&lowered, &wanted);
        proof {
            match r {
                Some(i) => {
                    assert(same_name(names[i as int], name@));
                    assert forall|j: int| 0 <= j < i implies !same_name(names[j], name@) by {
                        assert(lowered@[j]@ != wanted@);
                    }
                    lemma_first_match_at(names, name@, i as int);
                    assert forall|j: int| 0 <= j < names.len() && j != i implies !same_name(
                        names[j],
                        name@,
                    ) by {
                        unique_names_match_once(names, name@, i as int, j);
                    }
                },
                None => {
                    assert forall|j: int| 0 <= j < names.len() implies !same_name(
                        names[j],
                        name@,
                    ) by {
                        assert(lowered@[j]@ != wanted@);
                    }
                    lemma_no_match(names, name@);
                },
            }
        }
        r
    }

    /// The theme that `name` denotes, letter case aside; none where no theme
    /// has that name.
    pub fn find(&self, name: &str) -> (r: Option<&Theme>)
        ensures
            match first_match(self.names(), name@) {
                Some(i) => 0 <= i < self@.len() && r == Some(&self@[i]),
                None => r.is_none(),
            },
    {
        match self.position(name) {
            Some(i) => Some(&self.themes[i]),
            None => None,
        }
    }

    /// Takes the theme that `name` denotes out of the registry, which is
    /// given up; none where no theme has that name.
    pub fn take(self, name: &str) -> (r: Option<Theme>)
        ensures
            match first_match(self.names(), name@) {
                Some(i) => 0 <= i < self@.len() && r == Some(self@[i]),
                None => r.is_none(),
            },
    {
        match self.position(name) {
            Some(i) => {
                let mut themes = self.themes;
                Some(themes.swap_remove(i))
            },
            None => None,
        }
    }
}

/// The theme of the registry that `name` denotes, letter case aside; none
/// where no theme has that name.
pub fn get_theme<'a>(registry: &'a ThemeRegistry, name: &str) -> (r: Option<&'a Theme>)
    ensures
        match first_match(registry.names(), name@) {
            Some(i) => 0 <= i < registry@.len() && r == Some(&registry@[i]),
            None => r.is_none(),
        },
{
    registry.find(name)
}

/// The same lookup as `get_theme`.
pub fn get_theme_by_name<'a>(registry: &'a ThemeRegistry, name: &str) -> (r: Option<&'a Theme>)
    ensures
        match first_match(registry.names(), name@) {
            Some(i) => 0 <= i < registry@.len() && r == Some(&registry@[i]),
            None => r.is_none(),
        },
{
    get_theme(registry, name)
}

} // verus!
