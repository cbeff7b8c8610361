use vstd::prelude::*;
use crate::models::{Athlete, BullSharkActivity};

verus! {

/// The athlete-to-team mapping of a roster; a later entry for the same
/// name replaces an earlier one.
pub open spec fn roster_map(roster: Seq<Athlete>) -> Map<Seq<char>, Seq<char>>
    decreases roster.len(),
{
    if roster.len() == 0 {
        Map::empty()
    } else {
        roster_map(roster.drop_last()).insert(roster.last().name@, roster.last().team@)
    }
}

/// `list` holds each key of `m` once, with its value.
pub open spec fn pairs_ok(list: Seq<(String, String)>, m: Map<Seq<char>, Seq<char>>) -> bool {
    &&& forall|i: int, j: int| 0 <= i < j < list.len() ==> list[i].0@ != list[j].0@
    &&& forall|i: int|
        0 <= i < list.len() ==> m.contains_key((#[trigger] list[i]).0@) && m[list[i].0@] == list[i].1@
    &&& forall|n: Seq<char>|
        #[trigger] m.contains_key(n) ==> exists|i: int| 0 <= i < list.len() && (#[trigger] list[i]).0@ == n
}

/// Whether `s` reads exactly `lit`.
pub fn text_is(s: &String, lit: &str) -> (r: bool)
    ensures
        r == (s@ == lit@),
{
    let a = s.as_str();
    let n = a.unicode_len();
    if n != lit.unicode_len() {
        return false;
    }
    let mut i: usize = 0;
    while i < n
        invariant
            n == a@.len(),
            n == lit@.len(),
            a@ == s@,
            i <= n,
            forall|j: int| 0 <= j < i ==> a@[j] == lit@[j],
        decreases n - i,
    {
        if a.get_char(i) != lit.get_char(i) {
            return false;
        }
        i = i + 1;
    }
    assert(a@ =~= lit@);
    true
}

/// Maps each athlete name of the roster to its team.
pub fn build_athlete_team_map(athletes: &Vec<Athlete>) -> (r: Vec<(String, String)>)
    ensures
        pairs_ok(r@, roster_map(athletes@)),
{
    let mut list: Vec<(String, String)> = Vec::new();
    let mut k: usize = 0;
    while k < athletes.len()
        invariant
            k <= athletes@.len(),
            pairs_ok(list@, roster_map(athletes@.subrange(0, k as int))),
        decreases athletes@.len() - k,
    {
        let ghost m = roster_map(athletes@.subrange(0, k as int));
        let a = &athletes[k];
        assert(athletes@.subrange(0, k + 1).drop_last() =~= athletes@.subrange(0, k as int));
        let ghost m2 = m.insert(a.name@, a.team@);
        assert(roster_map(athletes@.subrange(0, k + 1)) == m2);
        let ghost before = list@;
        let mut i: usize = 0;
        let mut found = false;
        while i < list.len() && !found
            invariant
                i <= list@.len(),
                list@ == before,
                found ==> i < list@.len() && list@[i as int].0@ == a.name@,
                forall|j: int| 0 <= j < i ==> (#[trigger] list@[j]).0@ != a.name@,
            decreases list@.len() - i + if found { 0int } else { 1int },
        {
            if list[i].0 == a.name {
                found = true;
            } else {
                i = i + 1;
            }
        }
        if found {
            list.set(i, (a.name.clone(), a.team.clone()));
            assert forall|j: int| 0 <= j < list@.len() implies m2.contains_key((#[trigger] list@[j]).0@)
                && m2[list@[j].0@] == list@[j].1@ by {
                if j != i {
                    assert(list@[j] == before[j]);
                    assert(before[j].0@ != before[i as int].0@);
                }
            }
            assert forall|n: Seq<char>| #[trigger] m2.contains_key(n) implies exists|j: int|
                0 <= j < list@.len() && (#[trigger] list@[j]).0@ == n by {
                if n != a.name@ {
                    assert(m.contains_key(n));
                    let j = choose|j: int| 0 <= j < before.len() && (#[trigger] before[j]).0@ == n;
                    assert(list@[j] == before[j]);
                } else {
                    assert(list@[i as int].0@ == n);
                }
            }
            assert forall|x: int, y: int| 0 <= x < y < list@.len() implies list@[x].0@ != list@[y].0@ by {
                assert(before[x].0@ != before[y].0@);
            }
        } else {
            list.push((a.name.clone(), a.team.clone()));
            assert forall|j: int| 0 <= j < list@.len() implies m2.contains_key((#[trigger] list@[j]).0@)
                && m2[list@[j].0@] == list@[j].1@ by {
                if j < before.len() {
                    assert(list@[j] == before[j]);
                }
            }
            assert forall|n: Seq<char>| #[trigger] m2.contains_key(n) implies exists|j: int|
                0 <= j < list@.len() && (#[trigger] list@[j]).0@ == n by {
                if n != a.name@ {
                    assert(m.contains_key(n));
                    let j = choose|j: int| 0 <= j < before.len() && (#[trigger] before[j]).0@ == n;
                    assert(list@[j] == before[j]);
                } else {
                    assert(list@[before.len() as int].0@ == n);
                }
            }
        }
        k = k + 1;
    }
    assert(athletes@.subrange(0, athletes@.len() as int) =~= athletes@);
    list
}

/// The team of athlete `name` in a map built by `build_athlete_team_map`.
pub fn team_of(list: &Vec<(String, String)>, name: &String, Ghost(m): Ghost<Map<Seq<char>, Seq<char>>>) -> (r:
    Option<String>)
    requires
        pairs_ok(list@, m),
    ensures
        r is Some <==> m.contains_key(name@),
        r matches Some(t) ==> t@ == m[name@],
{
    let mut i: usize = 0;
    while i < list.len()
        invariant
            i <= list@.len(),
            pairs_ok(list@, m),
            forall|j: int| 0 <= j < i ==> (#[trigger] list@[j]).0@ != name@,
        decreases list@.len() - i,
    {
        if list[i].0 == *name {
            return Some(list[i].1.clone());
        }
        i = i + 1;
    }
    proof {
        if m.contains_key(name@) {
            let j = choose|j: int| 0 <= j < list@.len() && (#[trigger] list@[j]).0@ == name@;
            assert(false);
        }
    }
    None
}

/// Activity `a` is by athlete `name`.
pub open spec fn is_by(a: BullSharkActivity, name: Seq<char>) -> bool {
    a.athlete_name is Some && a.athlete_name->0@ == name
}

/// Some activity of `acts` is by athlete `name`.
pub open spec fn named_in(acts: Seq<BullSharkActivity>, name: Seq<char>) -> bool {
    exists|k: int| 0 <= k < acts.len() && is_by(#[trigger] acts[k], name)
}

/// The athlete names of `activities`, each once, in order of first
/// appearance; activities without a name are passed over.
pub fn distinct_athlete_names(activities: &Vec<BullSharkActivity>) -> (r: Vec<String>)
    ensures
        forall|i: int, j: int| 0 <= i < j < r@.len() ==> r@[i]@ != r@[j]@,
        forall|i: int| 0 <= i < r@.len() ==> named_in(activities@, (#[trigger] r@[i])@),
        forall|n: Seq<char>| #[trigger] named_in(activities@, n) ==> exists|i: int| 0 <= i < r@.len() && (#[trigger] r@[i])@ == n,
{
    let mut names: Vec<String> = Vec::new();
    let mut k: usize = 0;
    while k < activities.len()
        invariant
            k <= activities@.len(),
            forall|i: int, j: int| 0 <= i < j < names@.len() ==> names@[i]@ != names@[j]@,
            forall|i: int| 0 <= i < names@.len() ==> named_in(activities@.subrange(0, k as int), (#[trigger] names@[i])@),
            forall|n: Seq<char>| #[trigger] named_in(activities@.subrange(0, k as int), n) ==> exists|i: int|
                0 <= i < names@.len() && (#[trigger] names@[i])@ == n,
        decreases activities@.len() - k,
    {
        let ghost pre = activities@.subrange(0, k as int);
        let ghost next = activities@.subrange(0, k + 1);
        assert forall|n: Seq<char>| named_in(pre, n) implies named_in(next, n) by {
            let j = choose|j: int| 0 <= j < pre.len() && is_by(#[trigger] pre[j], n);
            assert(next[j] == pre[j]);
        }
        if let Some(name) = &activities[k].athlete_name {
            let mut i: usize = 0;
            let mut seen = false;
            while i < names.len() && !seen
                invariant
                    i <= names@.len(),
                    seen ==> i < names@.len() && names@[i as int]@ == name@,
                    forall|j: int| 0 <= j < i ==> (#[trigger] names@[j])@ != name@,
                decreases names@.len() - i + if seen { 0int } else { 1int },
            {
                if names[i] == *name {
                    seen = true;
                } else {
                    i = i + 1;
                }
            }
            assert(next[k as int] == activities@[k as int]);
            assert(named_in(next, name@));
            if !seen {
                let ghost before = names@;
                names.push(name.clone());
                assert forall|n: Seq<char>| #[trigger] named_in(next, n) implies exists|i: int|
                    0 <= i < names@.len() && (#[trigger] names@[i])@ == n by {
                    if n != name@ {
                        let j = choose|j: int| 0 <= j < next.len() && is_by(#[trigger] next[j], n);
                        assert(pre[j] == next[j]);
                        assert(named_in(pre, n));
                        let i = choose|i: int| 0 <= i < before.len() && (#[trigger] before[i])@ == n;
                        assert(names@[i] == before[i]);
                    } else {
                        assert(names@[before.len() as int]@ == n);
                    }
                }
            } else {
                assert forall|n: Seq<char>| #[trigger] named_in(next, n) implies exists|i: int|
                    0 <= i < names@.len() && (#[trigger] names@[i])@ == n by {
                    if n != name@ {
                        let j = choose|j: int| 0 <= j < next.len() && is_by(#[trigger] next[j], n);
                        assert(pre[j] == next[j]);
                        assert(named_in(pre, n));
                    }
                }
            }
        } else {
            assert forall|n: Seq<char>| #[trigger] named_in(next, n) implies named_in(pre, n) by {
                let j = choose|j: int| 0 <= j < next.len() && is_by(#[trigger] next[j], n);
                assert(pre[j] == next[j]);
            }
        }
        k = k + 1;
    }
    assert(activities@.subrange(0, activities@.len() as int) =~= activities@);
    names
}

} // verus!
