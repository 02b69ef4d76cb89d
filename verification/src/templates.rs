use vstd::prelude::*;

verus! {

/// An ordered bundle of named template sources. The base template is always
/// the first element, so that a renderer which registers the templates in
/// order sees the base before anything that extends it.
#[derive(Debug)]
pub struct ThemeTemplates {
    base: (&'static str, &'static str),
    others: Vec<(&'static str, &'static str)>,
}

impl ThemeTemplates {
    /// The base template: its name and its source.
    pub closed spec fn base(&self) -> (Seq<char>, Seq<char>) {
        (self.base.0@, self.base.1@)
    }

    /// The bundle as a sequence of (name, source) pairs, in registration order.
    pub closed spec fn view(&self) -> Seq<(Seq<char>, Seq<char>)> {
        seq![(self.base.0@, self.base.1@)] + Seq::new(
            self.others@.len(),
            |i: int| (self.others@[i].0@, self.others@[i].1@),
        )
    }

    /// A bundle that holds the base template and nothing else.
    pub fn new(base_template_name: &'static str, base_template: &'static str) -> (r: Self)
        ensures
            r.base() == (base_template_name@, base_template@),
            r@ == seq![(base_template_name@, base_template@)],
    {
        let r = ThemeTemplates { base: (base_template_name, base_template), others: Vec::new() };
        assert(r@ =~= seq![(base_template_name@, base_template@)]);
        r
    }

    /// Appends one template behind those already in the bundle. The base
    /// template stays what it was.
    pub fn with_template(self, name: &'static str, template: &'static str) -> (r: Self)
        ensures
            r.base() == self.base(),
            r@ == self@.push((name@, template@)),
    {
        let mut others = self.others;
        others.push((name, template));
        let r = ThemeTemplates { base: self.base, others };
        assert(r@ =~= self@.push((name@, template@)));
        r
    }

    /// The base template: its name and its source.
    pub fn base_entry(&self) -> (r: (&'static str, &'static str))
        ensures
            (r.0@, r.1@) == self.base(),
            (r.0@, r.1@) == self@[0],
    {
        self.base
    }

    /// The template at position `i` in registration order, if there is one.
    pub fn get(&self, i: usize) -> (r: Option<(&'static str, &'static str)>)
        ensures
            match r {
                Some(entry) => i < self@.len() && (entry.0@, entry.1@) == self@[i as int],
                None => i >= self@.len(),
            },
    {
        if i == 0 {
            Some(self.base)
        } else if i - 1 < self.others.len() {
            Some(self.others[i - 1])
        } else {
            None
        }
    }

    /// The templates in registration order, the base template first.
    pub fn into_vec(self) -> (r: Vec<(&'static str, &'static str)>)
        ensures
            r@.len() == self@.len(),
            r@.len() >= 1,
            (r@[0].0@, r@[0].1@) == self.base(),
            forall|i: int| 0 <= i < r@.len() ==> (#[trigger] r@[i].0@, r@[i].1@) == self@[i],
    {
        let mut r = self.others;
        r.insert(0, self.base);
        r
    }

    /// The base template is the first element of every bundle.
    pub proof fn base_is_first(self)
        ensures
            self@.len() >= 1,
            self@[0] == self.base(),
    {
    }
}

} // verus!
