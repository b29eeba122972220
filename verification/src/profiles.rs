//! A table of profiles by name, kept in the order of the names.
use crate::text::{
    equal_ignoring_case, lemma_precedes_irreflexive, lemma_precedes_total,
    lemma_precedes_transitive, precedes, same_text, same_text_ignoring_case, text_order, TextOrder,
};
use vstd::prelude::*;

verus! {

/// Whether each name stands before those that are listed after it.
pub open spec fn in_name_order<P>(listed: Seq<(Seq<char>, P)>) -> bool {
    forall|i: int, j: int|
        0 <= i < j < listed.len() ==> precedes((#[trigger] listed[i]).0, (#[trigger] listed[j]).0)
}

/// Whether `name` is among the listed names.
pub open spec fn lists<P>(listed: Seq<(Seq<char>, P)>, name: Seq<char>) -> bool {
    exists|i: int| 0 <= i < listed.len() && (#[trigger] listed[i]).0 == name
}

/// The listed profiles by their names.
pub open spec fn by_name<P>(listed: Seq<(Seq<char>, P)>) -> Map<Seq<char>, P> {
    Map::new(
        |name: Seq<char>| lists(listed, name),
        |name: Seq<char>|
            listed[choose|i: int| 0 <= i < listed.len() && (#[trigger] listed[i]).0 == name].1,
    )
}

/// In a list in name order, the profile of a name is the one that is listed beside it.
pub proof fn lemma_listed_once<P>(listed: Seq<(Seq<char>, P)>, i: int)
    requires
        in_name_order(listed),
        0 <= i < listed.len(),
    ensures
        by_name(listed).contains_pair(listed[i].0, listed[i].1),
{
    let j = choose|j: int| 0 <= j < listed.len() && (#[trigger] listed[j]).0 == listed[i].0;
    lemma_precedes_irreflexive(listed[i].0);
    assert(i == j);
}

/// Whether some profile has this name, up to the case of ASCII letters.
pub open spec fn has_match<P>(profiles: Map<Seq<char>, P>, name: Seq<char>) -> bool {
    exists|candidate: Seq<char>| #[trigger]
        profiles.contains_key(candidate) && equal_ignoring_case(candidate, name)
}

/// Whether `candidate` is the profile name that `name` matches: the name itself where a profile
/// has it, or else the first one that differs only in the case of ASCII letters.
pub open spec fn is_match<P>(
    profiles: Map<Seq<char>, P>,
    name: Seq<char>,
    candidate: Seq<char>,
) -> bool {
    &&& profiles.contains_key(candidate)
    &&& equal_ignoring_case(candidate, name)
    &&& if profiles.contains_key(name) {
        candidate == name
    } else {
        forall|other: Seq<char>| #[trigger]
            profiles.contains_key(other) && equal_ignoring_case(other, name) ==> other == candidate
                || precedes(candidate, other)
    }
}

/// The profile that `name` matches.
pub open spec fn matched<P>(profiles: Map<Seq<char>, P>, name: Seq<char>) -> Option<P> {
    if has_match(profiles, name) {
        Some(profiles[choose|candidate: Seq<char>| is_match(profiles, name, candidate)])
    } else {
        None
    }
}

/// A name matches at most one profile name.
pub proof fn lemma_match_is_unique<P>(
    profiles: Map<Seq<char>, P>,
    name: Seq<char>,
    candidate: Seq<char>,
)
    requires
        is_match(profiles, name, candidate),
    ensures
        matched(profiles, name) == Some(profiles[candidate]),
{
    let chosen = choose|other: Seq<char>| is_match(profiles, name, other);
    if chosen != candidate {
        assert(precedes(candidate, chosen));
        assert(precedes(chosen, candidate));
        lemma_precedes_transitive(candidate, chosen, candidate);
        lemma_precedes_irreflexive(candidate);
    }
}

/// Profiles by name. A name occurs once, and the names are kept in the order of their code
/// points.
#[derive(Debug, PartialEq)]
pub struct ProfileTable<P> {
    entries: Vec<(String, P)>,
}

impl<P> View for ProfileTable<P> {
    type V = Map<Seq<char>, P>;

    open spec fn view(&self) -> Map<Seq<char>, P> {
        by_name(self.listed())
    }
}

impl<P> ProfileTable<P> {
    /// The names with their profiles, in the order in which the table keeps them.
    pub closed spec fn listed(self) -> Seq<(Seq<char>, P)> {
        self.entries@.map_values(|entry: (String, P)| (entry.0@, entry.1))
    }

    #[verifier::type_invariant]
    spec fn well_formed(self) -> bool {
        in_name_order(self.listed())
    }

    /// A table without profiles.
    pub fn new() -> (table: Self)
        ensures
            table@ == Map::<Seq<char>, P>::empty(),
    {
        let table = ProfileTable { entries: Vec::new() };
        assert(table@ =~= Map::<Seq<char>, P>::empty());
        table
    }

    /// The number of profiles.
    pub fn len(&self) -> (count: usize)
        ensures
            count == self.listed().len(),
            in_name_order(self.listed()),
    {
        proof {
            use_type_invariant(self);
        }
        self.entries.len()
    }

    /// The entry at `index`, in the order of the names.
    pub fn entry(&self, index: usize) -> (entry: (&str, &P))
        requires
            index < self.listed().len(),
        ensures
            entry.0@ == self.listed()[index as int].0,
            *entry.1 == self.listed()[index as int].1,
    {
        let entry = &self.entries[index];
        (entry.0.as_str(), &entry.1)
    }

    /// The profile of exactly this name.
    pub fn get(&self, name: &str) -> (profile: Option<&P>)
        ensures
            match profile {
                Some(found) => self@.contains_pair(name@, *found),
                None => !self@.contains_key(name@),
            },
    {
        proof {
            use_type_invariant(self);
        }
        let mut i: usize = 0;
        while i < self.entries.len()
            invariant
                i <= self.entries.len(),
                in_name_order(self.listed()),
                forall|j: int| 0 <= j < i ==> (#[trigger] self.listed()[j]).0 != name@,
            decreases self.entries.len() - i,
        {
            assert(self.listed()[i as int].0 == self.entries@[i as int].0@);
            if same_text(self.entries[i].0.as_str(), name) {
                proof {
                    lemma_listed_once(self.listed(), i as int);
                }
                return Some(&self.entries[i].1);
            }
            i += 1;
        }
        None
    }

    /// The profile that `name` matches.
    pub fn find(&self, name: &str) -> (profile: Option<&P>)
        ensures
            match profile {
                Some(found) => matched(self@, name@) == Some(*found),
                None => matched(self@, name@) is None,
            },
            has_match(self@, name@) ==> exists|candidate: Seq<char>|
                is_match(self@, name@, candidate),
    {
        proof {
            use_type_invariant(self);
        }
        if let Some(found) = self.get(name) {
            proof {
                assert(is_match(self@, name@, name@));
                lemma_match_is_unique(self@, name@, name@);
            }
            return Some(found);
        }
        let mut i: usize = 0;
        while i < self.entries.len()
            invariant
                i <= self.entries.len(),
                in_name_order(self.listed()),
                !self@.contains_key(name@),
                forall|j: int|
                    0 <= j < i ==> !equal_ignoring_case((#[trigger] self.listed()[j]).0, name@),
            decreases self.entries.len() - i,
        {
            assert(self.listed()[i as int].0 == self.entries@[i as int].0@);
            if same_text_ignoring_case(self.entries[i].0.as_str(), name) {
                proof {
                    let candidate = self.listed()[i as int].0;
                    lemma_listed_once(self.listed(), i as int);
                    assert(is_match(self@, name@, candidate));
                    lemma_match_is_unique(self@, name@, candidate);
                }
                return Some(&self.entries[i].1);
            }
            i += 1;
        }
        None
    }

    /// Puts `profile` under `name`, in place of the one that stood there.
    pub fn insert(&mut self, name: String, profile: P)
        ensures
            final(self)@ == old(self)@.insert(name@, profile),
    {
        proof {
            use_type_invariant(&*self);
        }
        let ghost before = self.listed();
        let mut entries: Vec<(String, P)> = Vec::new();
        std::mem::swap(&mut entries, &mut self.entries);
        let mut i: usize = 0;
        let mut present = false;
        while i < entries.len()
            invariant_except_break
                !present,
            invariant
                i <= entries.len(),
                before == entries@.map_values(|entry: (String, P)| (entry.0@, entry.1)),
                forall|j: int| 0 <= j < i ==> precedes((#[trigger] before[j]).0, name@),
            ensures
                present ==> i < entries.len() && before[i as int].0 == name@,
                !present && i < entries.len() ==> precedes(name@, before[i as int].0),
            decreases entries.len() - i,
        {
            assert(before[i as int].0 == entries@[i as int].0@);
            match text_order(entries[i].0.as_str(), name.as_str()) {
                TextOrder::Before => {
                    i += 1;
                },
                TextOrder::Same => {
                    present = true;
                    break;
                },
                TextOrder::After => {
                    break;
                },
            }
        }
        let ghost text = name@;
        if present {
            let _ = entries.remove(i);
        }
        entries.insert(i, (name, profile));
        let ghost after = entries@.map_values(|entry: (String, P)| (entry.0@, entry.1));
        proof {
            let added = (text, profile);
            let kept = if present { before.remove(i as int) } else { before };
            assert(after =~= kept.insert(i as int, added));
            lemma_placed(before, i as int, present, text, profile);
        }
        self.entries = entries;
    }
}

impl<P: Clone> Clone for ProfileTable<P> {
    /// The same names in the same order, each with a clone of its profile.
    fn clone(&self) -> (copy: Self)
        ensures
            copy.listed().len() == self.listed().len(),
            forall|i: int|
                0 <= i < self.listed().len() ==> {
                    &&& (#[trigger] copy.listed()[i]).0 == self.listed()[i].0
                    &&& cloned::<P>(self.listed()[i].1, copy.listed()[i].1)
                },
    {
        proof {
            use_type_invariant(self);
        }
        let mut entries: Vec<(String, P)> = Vec::new();
        let mut i: usize = 0;
        while i < self.entries.len()
            invariant
                i <= self.entries.len(),
                entries@.len() == i,
                forall|j: int|
                    0 <= j < i ==> {
                        &&& (#[trigger] entries@[j]).0@ == self.entries@[j].0@
                        &&& cloned::<P>(self.entries@[j].1, entries@[j].1)
                    },
            decreases self.entries.len() - i,
        {
            let entry = &self.entries[i];
            entries.push((entry.0.clone(), entry.1.clone()));
            i += 1;
        }
        proof {
            let listed = entries@.map_values(|entry: (String, P)| (entry.0@, entry.1));
            assert forall|j: int, k: int| 0 <= j < k < listed.len() implies precedes(
                (#[trigger] listed[j]).0,
                (#[trigger] listed[k]).0,
            ) by {
                assert(listed[j].0 == self.listed()[j].0);
                assert(listed[k].0 == self.listed()[k].0);
            }
        }
        ProfileTable { entries }
    }
}

/// Placing an entry between the smaller and the greater names keeps the order and adds the
/// entry to the map of the list.
proof fn lemma_placed<P>(
    before: Seq<(Seq<char>, P)>,
    at: int,
    replaces: bool,
    name: Seq<char>,
    profile: P,
)
    requires
        in_name_order(before),
        0 <= at <= before.len(),
        forall|j: int| 0 <= j < at ==> precedes((#[trigger] before[j]).0, name),
        replaces ==> at < before.len() && before[at].0 == name,
        !replaces && at < before.len() ==> precedes(name, before[at].0),
    ensures
        ({
            let kept = if replaces { before.remove(at) } else { before };
            let after = kept.insert(at, (name, profile));
            in_name_order(after) && by_name(after) == by_name(before).insert(name, profile)
        }),
{
    let kept = if replaces {
        before.remove(at)
    } else {
        before
    };
    let after = kept.insert(at, (name, profile));
    let rest = if replaces {
        at + 1
    } else {
        at
    };
    assert forall|j: int| rest <= j < before.len() implies precedes(
        name,
        (#[trigger] before[j]).0,
    ) by {
        if !replaces && j > at {
            lemma_precedes_transitive(name, before[at].0, before[j].0);
        }
    }
    assert(after =~= before.take(at) + seq![(name, profile)] + before.skip(rest));
    assert(in_name_order(after)) by {
        assert forall|i: int, j: int| 0 <= i < j < after.len() implies precedes(
            (#[trigger] after[i]).0,
            (#[trigger] after[j]).0,
        ) by {
            if i < at && j > at {
                assert(precedes(before[i].0, name));
                assert(after[j] == before[j - 1 - at + rest]);
            }
            if i < at {
                assert(after[i] == before[i]);
            }
            if j > at {
                assert(after[j] == before[j - 1 - at + rest]);
            }
            if i > at {
                assert(after[i] == before[i - 1 - at + rest]);
            }
        }
    }
    assert(by_name(after) =~= by_name(before).insert(name, profile)) by {
        assert(after[at] == (name, profile));
        lemma_listed_once(after, at);
        assert forall|other: Seq<char>| other != name implies #[trigger] lists(after, other)
            == lists(before, other) && (lists(before, other) ==> by_name(after)[other]
            == by_name(before)[other]) by {
            if lists(before, other) {
                let i = choose|i: int| 0 <= i < before.len() && (#[trigger] before[i]).0 == other;
                let k = if i < at { i } else { i - rest + at + 1 };
                assert(i != at || !replaces);
                assert(after[k] == before[i]);
                lemma_listed_once(before, i);
                lemma_listed_once(after, k);
            }
            if lists(after, other) {
                let i = choose|i: int| 0 <= i < after.len() && (#[trigger] after[i]).0 == other;
                let k = if i < at { i } else { i - 1 - at + rest };
                assert(after[i] == before[k]);
            }
        }
    }
}

/// Some texts, finite in number, have a first one.
proof fn lemma_first_exists(names: Set<Seq<char>>)
    requires
        names.finite(),
        names.len() > 0,
    ensures
        exists|first: Seq<char>| #[trigger]
            names.contains(first) && forall|other: Seq<char>| #[trigger]
                names.contains(other) ==> other == first || precedes(first, other),
    decreases names.len(),
{
    let some = names.choose();
    let rest = names.remove(some);
    if rest.len() == 0 {
        assert(names.contains(some));
        assert forall|other: Seq<char>| #[trigger] names.contains(other) implies other == some by {
            if other != some {
                assert(rest.contains(other));
            }
        }
    } else {
        lemma_first_exists(rest);
        let first = choose|first: Seq<char>| #[trigger]
            rest.contains(first) && forall|other: Seq<char>| #[trigger]
                rest.contains(other) ==> other == first || precedes(first, other);
        lemma_precedes_total(some, first);
        if precedes(some, first) {
            assert(names.contains(some));
            assert forall|other: Seq<char>| #[trigger] names.contains(other) implies other == some
                || precedes(some, other) by {
                if other != some {
                    assert(rest.contains(other));
                    if other != first {
                        lemma_precedes_transitive(some, first, other);
                    }
                }
            }
        } else {
            assert(names.contains(first));
            assert forall|other: Seq<char>| #[trigger] names.contains(other) implies other == first
                || precedes(first, other) by {
                if other != some {
                    assert(rest.contains(other));
                }
            }
        }
    }
}

/// Some texts, finite in number, have a last one.
pub(crate) proof fn lemma_last_exists(names: Set<Seq<char>>)
    requires
        names.finite(),
        names.len() > 0,
    ensures
        exists|last: Seq<char>| #[trigger]
            names.contains(last) && forall|other: Seq<char>| #[trigger]
                names.contains(other) ==> other == last || precedes(other, last),
    decreases names.len(),
{
    let some = names.choose();
    let rest = names.remove(some);
    if rest.len() == 0 {
        assert(names.contains(some));
        assert forall|other: Seq<char>| #[trigger] names.contains(other) implies other == some by {
            if other != some {
                assert(rest.contains(other));
            }
        }
    } else {
        lemma_last_exists(rest);
        let last = choose|last: Seq<char>| #[trigger]
            rest.contains(last) && forall|other: Seq<char>| #[trigger]
                rest.contains(other) ==> other == last || precedes(other, last);
        lemma_precedes_total(some, last);
        if precedes(last, some) {
            assert(names.contains(some));
            assert forall|other: Seq<char>| #[trigger] names.contains(other) implies other == some
                || precedes(other, some) by {
                if other != some {
                    assert(rest.contains(other));
                    if other != last {
                        lemma_precedes_transitive(other, last, some);
                    }
                }
            }
        } else {
            assert(names.contains(last));
            assert forall|other: Seq<char>| #[trigger] names.contains(other) implies other == last
                || precedes(other, last) by {
                if other != some {
                    assert(rest.contains(other));
                }
            }
        }
    }
}

/// Where some profile has a name up to the case of ASCII letters, the name matches one.
pub proof fn lemma_match_exists<P>(profiles: Map<Seq<char>, P>, name: Seq<char>)
    requires
        profiles.dom().finite(),
        has_match(profiles, name),
    ensures
        exists|candidate: Seq<char>| is_match(profiles, name, candidate),
{
    if profiles.contains_key(name) {
        assert(is_match(profiles, name, name));
    } else {
        let names = profiles.dom().filter(
            |candidate: Seq<char>| equal_ignoring_case(candidate, name),
        );
        let some = choose|candidate: Seq<char>| #[trigger]
            profiles.contains_key(candidate) && equal_ignoring_case(candidate, name);
        profiles.dom().lemma_len_filter(
            |candidate: Seq<char>| equal_ignoring_case(candidate, name),
        );
        assert(names.contains(some));
        assert(names.len() > 0);
        lemma_first_exists(names);
        let first = choose|first: Seq<char>| #[trigger]
            names.contains(first) && forall|other: Seq<char>| #[trigger]
                names.contains(other) ==> other == first || precedes(first, other);
        assert forall|other: Seq<char>| #[trigger]
            profiles.contains_key(other) && equal_ignoring_case(other, name) implies other == first
            || precedes(first, other) by {
            assert(names.contains(other));
        }
        assert(is_match(profiles, name, first));
    }
}

/// A profile is found under its own name.
pub proof fn law_exact_name_matches<P>(profiles: Map<Seq<char>, P>, name: Seq<char>)
    requires
        profiles.contains_key(name),
    ensures
        matched(profiles, name) == Some(profiles[name]),
{
    assert(is_match(profiles, name, name));
    lemma_match_is_unique(profiles, name, name);
}

/// The case of ASCII letters makes no difference to which profile a name matches, unless
/// profiles are told apart by it.
pub proof fn law_case_makes_no_difference<P>(
    profiles: Map<Seq<char>, P>,
    a: Seq<char>,
    b: Seq<char>,
)
    requires
        profiles.dom().finite(),
        equal_ignoring_case(a, b),
        forall|one: Seq<char>, other: Seq<char>|
            #[trigger] profiles.contains_key(one) && #[trigger] profiles.contains_key(other)
                && equal_ignoring_case(one, other) ==> one == other,
    ensures
        matched(profiles, a) == matched(profiles, b),
{
    assert(forall|candidate: Seq<char>|
        equal_ignoring_case(candidate, a) <==> equal_ignoring_case(candidate, b));
    assert(has_match(profiles, a) == has_match(profiles, b)) by {
        if has_match(profiles, a) {
            let candidate = choose|candidate: Seq<char>| #[trigger]
                profiles.contains_key(candidate) && equal_ignoring_case(candidate, a);
            assert(equal_ignoring_case(candidate, b));
        }
        if has_match(profiles, b) {
            let candidate = choose|candidate: Seq<char>| #[trigger]
                profiles.contains_key(candidate) && equal_ignoring_case(candidate, b);
            assert(equal_ignoring_case(candidate, a));
        }
    }
    if has_match(profiles, a) {
        lemma_match_exists(profiles, a);
        let candidate = choose|candidate: Seq<char>| is_match(profiles, a, candidate);
        lemma_match_is_unique(profiles, a, candidate);
        assert forall|other: Seq<char>| #[trigger]
            profiles.contains_key(other) && equal_ignoring_case(other, b) implies other
            == candidate by {
            assert(equal_ignoring_case(other, candidate));
        }
        assert(is_match(profiles, b, candidate)) by {
            if profiles.contains_key(b) {
                assert(equal_ignoring_case(b, candidate));
            }
        }
        lemma_match_is_unique(profiles, b, candidate);
    }
}

/// A table holds finitely many profiles.
pub proof fn law_table_is_finite<P>(table: ProfileTable<P>)
    ensures
        table@.dom().finite(),
{
    let names = table.listed().map_values(|entry: (Seq<char>, P)| entry.0);
    vstd::seq_lib::seq_to_set_is_finite(names);
    assert forall|name: Seq<char>| #[trigger] table@.dom().contains(name) == names.to_set().contains(
        name,
    ) by {
        if lists(table.listed(), name) {
            let i = choose|i: int|
                0 <= i < table.listed().len() && (#[trigger] table.listed()[i]).0 == name;
            assert(names[i] == name);
        }
        if names.contains(name) {
            let i = choose|i: int| 0 <= i < names.len() && names[i] == name;
            assert(table.listed()[i].0 == name);
        }
    }
    assert(table@.dom() =~= names.to_set());
}

/// A name matches a profile if and only if a profile has it up to case. The profile that it matches
/// is the one of that very name where there is one, and otherwise the first of those whose names
/// differ in case only.
pub proof fn law_match<P>(profiles: Map<Seq<char>, P>, name: Seq<char>)
    requires
        profiles.dom().finite(),
    ensures
        matched(profiles, name) is Some <==> exists|candidate: Seq<char>| #[trigger]
            profiles.contains_key(candidate) && equal_ignoring_case(candidate, name),
        matched(profiles, name) is Some <==> has_match(profiles, name),
        profiles.contains_key(name) ==> matched(profiles, name) == Some(profiles[name]),
        matched(profiles, name) matches Some(profile) ==> !profiles.contains_key(name) ==> exists|
            candidate: Seq<char>,
        | #[trigger]
            profiles.contains_key(candidate) && equal_ignoring_case(candidate, name)
                && profiles[candidate] == profile && forall|other: Seq<char>| #[trigger]
                profiles.contains_key(other) && equal_ignoring_case(other, name) ==> other
                    == candidate || precedes(candidate, other),
{
    if has_match(profiles, name) {
        lemma_match_exists(profiles, name);
        let candidate = choose|candidate: Seq<char>| is_match(profiles, name, candidate);
        lemma_match_is_unique(profiles, name, candidate);
        assert(profiles.contains_key(candidate));
    }
    if profiles.contains_key(name) {
        law_exact_name_matches(profiles, name);
    }
}

/// A list in name order, read by name, holds what it lists and nothing else.
pub proof fn law_listed<P>(listed: Seq<(Seq<char>, P)>, name: Seq<char>)
    requires
        in_name_order(listed),
    ensures
        by_name(listed).contains_key(name) <==> exists|i: int|
            0 <= i < listed.len() && (#[trigger] listed[i]).0 == name,
        forall|i: int|
            0 <= i < listed.len() && (#[trigger] listed[i]).0 == name ==> by_name(listed)[name]
                == listed[i].1,
{
    assert forall|i: int| 0 <= i < listed.len() && (#[trigger] listed[i]).0 == name implies by_name(
        listed,
    )[name] == listed[i].1 by {
        lemma_listed_once(listed, i);
    }
}

} // verus!
