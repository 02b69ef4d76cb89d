use crate::strmap::StrMap;
use crate::theme::ConfigOption;
use vstd::prelude::*;
use vstd::string::{StrSliceExecFns, StringExecFns};

verus! {

/// The text `pat` stands in `s` at position `i`.
pub open spec fn occurs_at(s: Seq<char>, pat: Seq<char>, i: int) -> bool {
    0 <= i && i + pat.len() <= s.len() && s.subrange(i, i + pat.len()) == pat
}

/// The text `pat` stands somewhere in `s`.
pub open spec fn occurs_in(s: Seq<char>, pat: Seq<char>) -> bool {
    exists|i: int| occurs_at(s, pat, i)
}

/// The text `s` with a space in place of every underscore.
pub open spec fn spaced(s: Seq<char>) -> Seq<char> {
    Seq::new(
        s.len(),
        |i: int|
            if s[i] == '_' {
                ' '
            } else {
                s[i]
            },
    )
}

/// Whether `pat` stands in `s` at position `i`.
fn matches_at(s: &str, pat: &str, i: usize) -> (r: bool)
    requires
        i + pat@.len() <= s@.len(),
    ensures
        r == occurs_at(s@, pat@, i as int),
{
    let n = s.unicode_len();
    let m = pat.unicode_len();
    let mut j: usize = 0;
    while j < m
        invariant
            j <= m,
            n == s@.len(),
            m == pat@.len(),
            i + m <= s@.len(),
            forall|t: int| 0 <= t < j ==> s@[i + t] == pat@[t],
        decreases m - j,
    {
        if s.get_char(i + j) != pat.get_char(j) {
            assert(s@.subrange(i as int, i + m)[j as int] != pat@[j as int]);
            return false;
        }
        j += 1;
    }
    assert(s@.subrange(i as int, i + m) =~= pat@);
    true
}

/// Whether the text `pat` stands somewhere in `s`.
pub fn contains_text(s: &str, pat: &str) -> (r: bool)
    ensures
        r == occurs_in(s@, pat@),
{
    let n = s.unicode_len();
    let m = pat.unicode_len();
    if m > n {
        return false;
    }
    let last: usize = n - m;
    let mut i: usize = 0;
    loop
        invariant
            n == s@.len(),
            m == pat@.len(),
            last == n - m,
            i <= last,
            forall|k: int| 0 <= k < i ==> !occurs_at(s@, pat@, k),
        decreases last - i,
    {
        if matches_at(s, pat, i) {
            return true;
        }
        if i == last {
            return false;
        }
        i += 1;
    }
}

/// The text `s` with a space in place of every underscore.
pub fn with_spaces(s: &str) -> (r: String)
    ensures
        r@ == spaced(s@),
{
    let n = s.unicode_len();
    let mut out = String::new();
    let mut i: usize = 0;
    while i < n
        invariant
            i <= n,
            n == s@.len(),
            out@ == spaced(s@).subrange(0, i as int),
        decreases n - i,
    {
        let ghost before = out@;
        if s.get_char(i) == '_' {
            proof {
                reveal_strlit(" ");
            }
            out.append(" ");
            assert(out@ =~= before.push(' '));
        } else {
            out.append(s.substring_char(i, i + 1));
            assert(out@ =~= before.push(s@[i as int]));
        }
        assert(out@ =~= spaced(s@).subrange(0, i + 1));
        i += 1;
    }
    assert(out@ =~= spaced(s@));
    out
}

/// A colour option picked for the sample of a preview: its position in the
/// schema and its name in words.
#[derive(Debug, Clone, PartialEq, Eq)]
pub struct ColorSample {
    pub index: usize,
    pub label: String,
}

/// An option belongs to the sample when its name holds the word "color".
pub open spec fn is_color_key(key: Seq<char>) -> bool {
    occurs_in(key, "color"@)
}

/// The sample lists position `i`.
pub open spec fn samples_list(samples: Seq<ColorSample>, i: int) -> bool {
    exists|k: int| 0 <= k < samples.len() && samples[k].index == i
}

/// The colour options of a schema, in the schema's order: exactly the
/// options whose name holds "color", each with its name in words.
pub fn color_samples(schema: &StrMap<ConfigOption>) -> (r: Vec<ColorSample>)
    ensures
        forall|k: int|
            0 <= k < r@.len() ==> {
                &&& (#[trigger] r@[k]).index < schema.keys().len()
                &&& is_color_key(schema.keys()[r@[k].index as int])
                &&& r@[k].label@ == spaced(schema.keys()[r@[k].index as int])
            },
        forall|k: int, l: int| 0 <= k < l < r@.len() ==> r@[k].index < r@[l].index,
        forall|i: int|
            0 <= i < schema.keys().len() && is_color_key(#[trigger] schema.keys()[i])
                ==> samples_list(r@, i),
{
    let mut samples: Vec<ColorSample> = Vec::new();
    let n = schema.len();
    let mut i: usize = 0;
    while i < n
        invariant
            i <= n,
            n == schema.keys().len(),
            forall|k: int|
                0 <= k < samples@.len() ==> {
                    &&& (#[trigger] samples@[k]).index < i
                    &&& is_color_key(schema.keys()[samples@[k].index as int])
                    &&& samples@[k].label@ == spaced(schema.keys()[samples@[k].index as int])
                },
            forall|k: int, l: int|
                0 <= k < l < samples@.len() ==> samples@[k].index < samples@[l].index,
            forall|t: int|
                0 <= t < i && is_color_key(#[trigger] schema.keys()[t]) ==> samples_list(
                    samples@,
                    t,
                ),
        decreases n - i,
    {
        let key = schema.key_at(i);
        let ghost before = samples@;
        if contains_text(key.as_str(), "color") {
            let sample = ColorSample { index: i, label: with_spaces(key.as_str()) };
            samples.push(sample);
            proof {
                assert(samples@[before.len() as int].index == i);
                assert(samples_list(samples@, i as int));
                assert forall|t: int|
                    0 <= t < i && is_color_key(#[trigger] schema.keys()[t]) implies samples_list(
                    samples@,
                    t,
                ) by {
                    assert(samples_list(before, t));
                    let k = choose|k: int| 0 <= k < before.len() && before[k].index == t;
                    assert(samples@[k].index == t);
                }
            }
        }
        i += 1;
    }
    samples
}

} // verus!
