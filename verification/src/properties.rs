//! The named properties of a READY command.
use crate::octets;
use bytes::Bytes;
use vstd::prelude::*;

verus! {

/// Named properties, each name at most once, in the order in which the names were
/// first given.
#[derive(Debug)]
pub struct Properties {
    entries: Vec<(String, Bytes)>,
}

/// A property's name and value.
pub type Property = (Seq<char>, Seq<u8>);

/// The names and values of entries.
pub open spec fn entries_view(entries: Seq<(String, Bytes)>) -> Seq<Property> {
    Seq::new(entries.len(), |i: int| (entries[i].0@, octets::of(entries[i].1)))
}

/// What a row of properties amounts to when each is inserted in turn.
pub open spec fn collect(list: Seq<Property>, start: Map<Seq<char>, Seq<u8>>) -> Map<
    Seq<char>,
    Seq<u8>,
>
    decreases list.len(),
{
    if list.len() == 0 {
        start
    } else {
        collect(list.skip(1), start.insert(list[0].0, list[0].1))
    }
}

/// No name stands twice.
pub open spec fn names_differ(list: Seq<Property>) -> bool {
    forall|i: int, j: int| 0 <= i < j < list.len() ==> (#[trigger] list[i]).0 != (#[trigger] list[j]).0
}

/// `name` stands at place `i` of the row.
pub open spec fn names_at(list: Seq<Property>, i: int, name: Seq<char>) -> bool {
    0 <= i < list.len() && list[i].0 == name
}

/// Where no name stands twice, a collected row maps each of its names to the value
/// beside it, and keeps what it started from for the others.
pub proof fn collected_row_maps_names(
    list: Seq<Property>,
    start: Map<Seq<char>, Seq<u8>>,
    name: Seq<char>,
)
    requires
        names_differ(list),
    ensures
        collect(list, start).contains_key(name) <==> (start.contains_key(name) || exists|i: int|
            names_at(list, i, name)),
        forall|i: int| #[trigger] names_at(list, i, name) ==> collect(list, start)[name] == list[i].1,
        !(exists|i: int| names_at(list, i, name)) ==> collect(list, start)[name] == start[name],
    decreases list.len(),
{
    if list.len() > 0 {
        let rest = list.skip(1);
        let next = start.insert(list[0].0, list[0].1);
        assert forall|i: int, j: int| 0 <= i < j < rest.len() implies (#[trigger] rest[i]).0 != (
        #[trigger] rest[j]).0 by {
            assert(rest[i] == list[i + 1] && rest[j] == list[j + 1]);
        }
        collected_row_maps_names(rest, next, name);
        assert forall|i: int| #[trigger] names_at(list, i, name) implies collect(list, start)[name]
            == list[i].1 && collect(list, start).contains_key(name) by {
            if i > 0 {
                assert(names_at(rest, i - 1, name));
            } else if exists|j: int| names_at(rest, j, name) {
                let j = choose|j: int| names_at(rest, j, name);
                assert(rest[j] == list[j + 1]);
                assert(list[0].0 != list[j + 1].0);
            }
        }
        if exists|j: int| names_at(rest, j, name) {
            let j = choose|j: int| names_at(rest, j, name);
            assert(rest[j] == list[j + 1]);
            assert(names_at(list, j + 1, name));
        }
        if list[0].0 == name {
            assert(names_at(list, 0, name));
        }
    }
}

impl Clone for Properties {
    fn clone(&self) -> (r: Self)
        ensures
            r.listing() == self.listing(),
            r@ == self@,
    {
        proof {
            use_type_invariant(self);
        }
        let mut entries: Vec<(String, Bytes)> = Vec::new();
        let mut i: usize = 0;
        while i < self.entries.len()
            invariant
                i <= self.entries@.len(),
                entries_view(entries@) == self.listing().take(i as int),
            decreases self.entries@.len() - i,
        {
            let ghost before = entries_view(entries@);
            entries.push((self.entries[i].0.clone(), octets::share(&self.entries[i].1)));
            assert(entries_view(entries@) =~= before.push(self.listing()[i as int]));
            assert(self.listing().take(i + 1) =~= self.listing().take(i as int).push(
                self.listing()[i as int],
            ));
            i = i + 1;
        }
        assert(self.listing().take(i as int) =~= self.listing());
        Properties { entries }
    }
}

impl View for Properties {
    type V = Map<Seq<char>, Seq<u8>>;

    open spec fn view(&self) -> Map<Seq<char>, Seq<u8>> {
        collect(self.listing(), Map::empty())
    }
}

impl Properties {
    /// The properties in their order.
    pub closed spec fn listing(&self) -> Seq<Property> {
        entries_view(self.entries@)
    }

    #[verifier::type_invariant]
    spec fn names_unique(self) -> bool {
        names_differ(self.listing())
    }

    pub fn new() -> (r: Properties)
        ensures
            r@ == Map::<Seq<char>, Seq<u8>>::empty(),
            r.listing().len() == 0,
    {
        Properties { entries: Vec::new() }
    }

    /// Number of properties.
    pub fn len(&self) -> (n: usize)
        ensures
            n == self.listing().len(),
            names_differ(self.listing()),
    {
        proof {
            use_type_invariant(self);
        }
        self.entries.len()
    }

    /// The name of a property, by its place.
    pub fn name(&self, index: usize) -> (name: &str)
        requires
            index < self.listing().len(),
        ensures
            name@ == self.listing()[index as int].0,
    {
        self.entries[index].0.as_str()
    }

    /// The value of a property, by its place.
    pub fn value(&self, index: usize) -> (value: &[u8])
        requires
            index < self.listing().len(),
        ensures
            value@ == self.listing()[index as int].1,
    {
        octets::as_slice(&self.entries[index].1)
    }

    /// The value of a property, by its name.
    pub fn get(&self, name: &str) -> (value: Option<&[u8]>)
        ensures
            value is Some <==> self@.contains_key(name@),
            value matches Some(s) ==> s@ == self@[name@],
    {
        proof {
            use_type_invariant(self);
            collected_row_maps_names(self.listing(), Map::empty(), name@);
        }
        let mut i: usize = 0;
        while i < self.entries.len()
            invariant
                i <= self.entries@.len(),
                forall|j: int| 0 <= j < i ==> !names_at(self.listing(), j, name@),
                forall|j: int| #[trigger]
                    names_at(self.listing(), j, name@) ==> self@.contains_key(name@) && self@[name@]
                        == self.listing()[j].1,
            decreases self.entries@.len() - i,
        {
            if same_text(self.entries[i].0.as_str(), name) {
                assert(names_at(self.listing(), i as int, name@));
                return Some(octets::as_slice(&self.entries[i].1));
            }
            i = i + 1;
        }
        None
    }

    /// Gives a name a value, in place of the value that it had.
    pub fn insert(&mut self, name: String, value: Bytes)
        ensures
            final(self)@ == old(self)@.insert(name@, octets::of(value)),
    {
        proof {
            use_type_invariant(&*self);
        }
        let ghost before = self.listing();
        let mut entries: Vec<(String, Bytes)> = Vec::new();
        std::mem::swap(&mut entries, &mut self.entries);
        let mut i: usize = 0;
        while i < entries.len() && entries[i].0 != name
            invariant
                i <= entries@.len(),
                before == entries_view(entries@),
                forall|j: int| 0 <= j < i ==> !names_at(before, j, name@),
            decreases entries@.len() - i,
        {
            i = i + 1;
        }
        let ghost added = (name@, octets::of(value));
        let ghost after = if i < before.len() {
            before.update(i as int, added)
        } else {
            before.push(added)
        };
        if i < entries.len() {
            entries[i] = (name, value);
        } else {
            entries.push((name, value));
        }
        proof {
            assert(entries_view(entries@) =~= after);
            row_insert(before, i as int, added);
        }
        self.entries = entries;
    }

    /// Gives names the values that they have in `other`.
    pub fn extend(&mut self, other: Properties)
        ensures
            final(self)@ == old(self)@.union_prefer_right(other@),
    {
        proof {
            use_type_invariant(&other);
        }
        let ghost added = other.listing();
        let ghost start = self@;
        let mut rest: Vec<(String, Bytes)> = other.entries;
        proof {
            assert(collect(added, start) =~= start.union_prefer_right(other@)) by {
                assert forall|n: Seq<char>| true implies (collect(added, start).contains_key(n)
                    <==> #[trigger] start.union_prefer_right(other@).contains_key(n)) && (collect(
                    added,
                    start,
                ).contains_key(n) ==> collect(added, start)[n] == start.union_prefer_right(
                    other@,
                )[n]) by {
                    collected_row_maps_names(added, start, n);
                    collected_row_maps_names(added, Map::empty(), n);
                }
            }
        }
        while rest.len() > 0
            invariant
                collect(entries_view(rest@), self@) == collect(added, start),
            decreases rest@.len(),
        {
            let ghost row = entries_view(rest@);
            let (name, value) = rest.remove(0);
            assert(entries_view(rest@) =~= row.skip(1));
            self.insert(name, value);
        }
    }
}

/// Putting a property at the first place that has its name, or at the end, keeps
/// the names apart and inserts the property.
proof fn row_insert(list: Seq<Property>, i: int, added: Property)
    requires
        names_differ(list),
        0 <= i <= list.len(),
        forall|j: int| 0 <= j < i ==> !names_at(list, j, added.0),
        i < list.len() ==> list[i].0 == added.0,
    ensures
        ({
            let after = if i < list.len() {
                list.update(i, added)
            } else {
                list.push(added)
            };
            names_differ(after) && collect(after, Map::empty()) == collect(
                list,
                Map::empty(),
            ).insert(added.0, added.1)
        }),
{
    let after = if i < list.len() {
        list.update(i, added)
    } else {
        list.push(added)
    };
    assert forall|a: int, b: int| 0 <= a < b < after.len() implies (#[trigger] after[a]).0 != (
    #[trigger] after[b]).0 by {
        assert(!names_at(list, a, added.0) || a >= i);
    }
    let got = collect(after, Map::empty());
    let want = collect(list, Map::empty()).insert(added.0, added.1);
    assert forall|n: Seq<char>| true implies (#[trigger] got.contains_key(n) <==> want.contains_key(
        n,
    )) && (got.contains_key(n) ==> got[n] == want[n]) by {
        collected_row_maps_names(list, Map::empty(), n);
        collected_row_maps_names(after, Map::empty(), n);
        assert(names_at(after, i, added.0));
        if exists|j: int| names_at(list, j, n) {
            let j = choose|j: int| names_at(list, j, n);
            assert(names_at(after, j, n));
        }
        if exists|j: int| names_at(after, j, n) {
            let j = choose|j: int| names_at(after, j, n);
            if j != i {
                assert(names_at(list, j, n));
            }
        }
    }
    assert(got =~= want);
}

/// Whether two texts have the same characters.
pub(crate) fn same_text(a: &str, b: &str) -> (same: bool)
    ensures
        same == (a@ == b@),
{
    a.to_owned() == b.to_owned()
}

} // verus!
