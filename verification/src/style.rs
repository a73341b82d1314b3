//! Resolved style properties of one element.

use vstd::prelude::*;
use crate::text::{same, views};

verus! {

/// Property values by name; a name has at most one value.
pub struct Computed {
    entries: Vec<(String, String)>,
}

/// The values that a list of entries gives to its names.
pub closed spec fn entry_map(entries: Seq<(String, String)>) -> Map<Seq<char>, Seq<char>>
    decreases entries.len(),
{
    if entries.len() == 0 {
        Map::empty()
    } else {
        entry_map(entries.drop_last()).insert(entries.last().0@, entries.last().1@)
    }
}

proof fn entry_map_lookup(entries: Seq<(String, String)>, name: Seq<char>, at: int)
    requires
        0 <= at < entries.len(),
        entries[at].0@ == name,
        forall|k: int| at < k < entries.len() ==> (#[trigger] entries[k]).0@ != name,
    ensures
        entry_map(entries).contains_key(name),
        entry_map(entries)[name] == entries[at].1@,
    decreases entries.len(),
{
    if at < entries.len() - 1 {
        assert(entries.last() == entries[entries.len() - 1]);
        entry_map_lookup(entries.drop_last(), name, at);
    }
}

proof fn entry_map_absent(entries: Seq<(String, String)>, name: Seq<char>)
    requires
        forall|k: int| 0 <= k < entries.len() ==> (#[trigger] entries[k]).0@ != name,
    ensures
        !entry_map(entries).contains_key(name),
    decreases entries.len(),
{
    if entries.len() > 0 {
        assert(entries.last() == entries[entries.len() - 1]);
        entry_map_absent(entries.drop_last(), name);
    }
}

impl View for Computed {
    type V = Map<Seq<char>, Seq<char>>;

    closed spec fn view(&self) -> Map<Seq<char>, Seq<char>> {
        entry_map(self.entries@)
    }
}

impl Default for Computed {
    /// No property is set.
    fn default() -> (result: Self)
        ensures
            result@ == Map::<Seq<char>, Seq<char>>::empty(),
    {
        Computed { entries: Vec::new() }
    }
}

/// The value of `name`, where one is set.
pub open spec fn value_of(style: Map<Seq<char>, Seq<char>>, name: Seq<char>) -> Option<Seq<char>> {
    if style.contains_key(name) {
        Some(style[name])
    } else {
        None
    }
}

/// The view of an optional string.
pub open spec fn text_view(value: Option<&str>) -> Option<Seq<char>> {
    match value {
        Some(text) => Some(text@),
        None => None,
    }
}

proof fn entry_map_has(entries: Seq<(String, String)>, at: int)
    requires
        0 <= at < entries.len(),
    ensures
        entry_map(entries).contains_key(entries[at].0@),
    decreases entries.len(),
{
    if at < entries.len() - 1 {
        entry_map_has(entries.drop_last(), at);
    }
}

proof fn entry_map_source(entries: Seq<(String, String)>, name: Seq<char>) -> (at: int)
    requires
        entry_map(entries).contains_key(name),
    ensures
        0 <= at < entries.len(),
        entries[at].0@ == name,
    decreases entries.len(),
{
    if entries.last().0@ == name {
        entries.len() - 1
    } else {
        entry_map_source(entries.drop_last(), name)
    }
}

/// Both styles give every property outside `allowed` the same value, or none.
pub open spec fn agree_outside(
    a: Map<Seq<char>, Seq<char>>,
    b: Map<Seq<char>, Seq<char>>,
    allowed: Seq<Seq<char>>,
) -> bool {
    forall|name: Seq<char>|
        !allowed.contains(name) ==> value_of(a, name) == #[trigger] value_of(b, name)
}

fn listed(name: &str, names: &[&str]) -> (result: bool)
    ensures
        result == views(names@).contains(name@),
{
    let mut i: usize = 0;
    while i < names.len()
        invariant
            i <= names@.len(),
            forall|k: int| 0 <= k < i ==> (#[trigger] names@[k])@ != name@,
        decreases names@.len() - i,
    {
        if same(names[i], name) {
            assert(views(names@)[i as int] == name@);
            return true;
        }
        i = i + 1;
    }
    proof {
        assert forall|k: int| 0 <= k < names@.len() implies #[trigger] views(names@)[k] != name@ by {
            assert(names@[k]@ != name@);
        }
    }
    false
}

impl Computed {
    /// The value of one property.
    pub fn get(&self, name: &str) -> (result: Option<&str>)
        ensures
            text_view(result) == value_of(self@, name@),
    {
        let mut i: usize = self.entries.len();
        while i > 0
            invariant
                i <= self.entries@.len(),
                forall|k: int| i <= k < self.entries@.len() ==> (#[trigger] self.entries@[k]).0@ != name@,
            decreases i,
        {
            i = i - 1;
            let entry = &self.entries[i];
            if same(entry.0.as_str(), name) {
                proof {
                    entry_map_lookup(self.entries@, name@, i as int);
                }
                return Some(entry.1.as_str());
            }
        }
        proof {
            entry_map_absent(self.entries@, name@);
        }
        None
    }

    /// Sets one property.
    pub fn set(&mut self, name: &str, value: &str)
        ensures
            final(self)@ == old(self)@.insert(name@, value@),
    {
        self.entries.push((name.to_owned(), value.to_owned()));
        assert(self.entries@.drop_last() =~= old(self).entries@);
    }

    /// Another style with the same values.
    pub fn copied(&self) -> (result: Self)
        ensures
            result@ == self@,
    {
        let mut entries: Vec<(String, String)> = Vec::new();
        let mut i: usize = 0;
        while i < self.entries.len()
            invariant
                i <= self.entries@.len(),
                entries@.len() == i,
                entry_map(entries@) == entry_map(self.entries@.take(i as int)),
            decreases self.entries@.len() - i,
        {
            let name = self.entries[i].0.clone();
            let value = self.entries[i].1.clone();
            let ghost before = entries@;
            entries.push((name, value));
            assert(entries@.drop_last() =~= before);
            assert(self.entries@.take(i + 1).drop_last() =~= self.entries@.take(i as int));
            i = i + 1;
        }
        assert(self.entries@.take(i as int) =~= self.entries@);
        Computed { entries }
    }

    /// Whether every property outside `allowed` has the same value in both
    /// styles, or in neither.
    pub fn differs_only_in(&self, other: &Computed, allowed: &[&str]) -> (result: bool)
        ensures
            result == agree_outside(self@, other@, views(allowed@)),
    {
        let first = self.covers_changes(other, allowed);
        let second = other.covers_changes(self, allowed);
        proof {
            if first && second {
                assert forall|name: Seq<char>| !views(allowed@).contains(name) implies value_of(
                    self@,
                    name,
                ) == #[trigger] value_of(other@, name) by {
                    if self@.contains_key(name) {
                        assert(value_of(other@, name) == Some(self@[name]));
                    } else if other@.contains_key(name) {
                        assert(value_of(self@, name) == Some(other@[name]));
                    }
                }
            } else if !first {
                let name = choose|name: Seq<char>|
                    #![trigger self@.contains_key(name)]
                    self@.contains_key(name) && !views(allowed@).contains(name) && value_of(
                        other@,
                        name,
                    ) != Some(self@[name]);
                assert(value_of(self@, name) != value_of(other@, name));
            } else {
                let name = choose|name: Seq<char>|
                    #![trigger other@.contains_key(name)]
                    other@.contains_key(name) && !views(allowed@).contains(name) && value_of(
                        self@,
                        name,
                    ) != Some(other@[name]);
                assert(value_of(self@, name) != value_of(other@, name));
            }
        }
        first && second
    }

    /// Whether every value here outside `allowed` is the other style's too.
    fn covers_changes(&self, other: &Computed, allowed: &[&str]) -> (result: bool)
        ensures
            result == (forall|name: Seq<char>|
                #![trigger self@.contains_key(name)]
                self@.contains_key(name) && !views(allowed@).contains(name) ==> value_of(
                    other@,
                    name,
                ) == Some(self@[name])),
    {
        let mut i: usize = 0;
        while i < self.entries.len()
            invariant
                i <= self.entries@.len(),
                forall|k: int|
                    0 <= k < i && !views(allowed@).contains((#[trigger] self.entries@[k]).0@)
                        ==> value_of(other@, self.entries@[k].0@) == value_of(
                        self@,
                        self.entries@[k].0@,
                    ),
            decreases self.entries@.len() - i,
        {
            let name = self.entries[i].0.as_str();
            if !listed(name, allowed) {
                let mine = self.get(name);
                let theirs = other.get(name);
                proof {
                    entry_map_has(self.entries@, i as int);
                }
                let equal = match (mine, theirs) {
                    (Some(a), Some(b)) => same(a, b),
                    (None, None) => true,
                    _ => false,
                };
                if !equal {
                    assert(self@.contains_key(name@));
                    return false;
                }
            }
            i = i + 1;
        }
        proof {
            assert forall|name: Seq<char>|
                #![trigger self@.contains_key(name)]
                self@.contains_key(name) && !views(allowed@).contains(name) implies value_of(
                other@,
                name,
            ) == Some(self@[name]) by {
                let k = entry_map_source(self.entries@, name);
                assert(self.entries@[k].0@ == name);
            }
        }
        true
    }

    /// Whether both styles set the same properties to the same values.
    pub fn same_as(&self, other: &Computed) -> (result: bool)
        ensures
            result == (self@ == other@),
    {
        let none: [&str; 0] = [];
        let result = self.differs_only_in(other, none.as_slice());
        proof {
            assert(views(none@) =~= Seq::<Seq<char>>::empty());
            if result {
                assert forall|name: Seq<char>|
                    #[trigger] self@.contains_key(name) == other@.contains_key(name) by {
                    assert(value_of(self@, name) == value_of(other@, name));
                }
                assert forall|name: Seq<char>| self@.contains_key(name) implies #[trigger] self@[name]
                    == other@[name] by {
                    assert(value_of(self@, name) == value_of(other@, name));
                }
                assert(self@.dom() =~= other@.dom());
                assert(self@ =~= other@);
            }
        }
        result
    }

    /// Whether property `name` holds exactly `value`.
    pub fn is(&self, name: &str, value: &str) -> (result: bool)
        ensures
            result == (value_of(self@, name@) == Some(value@)),
    {
        match self.get(name) {
            Some(text) => same(text, value),
            None => false,
        }
    }
}

/// Reading a property gives back the last value set, and setting one property
/// leaves every other as it was.
pub proof fn set_then_get(
    style: Map<Seq<char>, Seq<char>>,
    name: Seq<char>,
    value: Seq<char>,
    other: Seq<char>,
)
    ensures
        value_of(style.insert(name, value), name) == Some(value),
        other != name ==> value_of(style.insert(name, value), other) == value_of(style, other),
{
}

} // verus!
