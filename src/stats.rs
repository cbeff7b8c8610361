use vstd::prelude::*;
use crate::models::ActivityTime;
use crate::calendar::week_start_time;

verus! {

/// One distance counted for a team: the athlete's name, the day number
/// (days since 1970-01-01, local calendar) of the Monday that starts its
/// week, and the distance in millimetres.
pub type Contribution = (Seq<char>, int, nat);

/// Total distance of `cs`.
pub open spec fn total(cs: Seq<Contribution>) -> nat
    decreases cs.len(),
{
    if cs.len() == 0 {
        0
    } else {
        total(cs.drop_last()) + cs.last().2
    }
}

/// Total distance of athlete `name` in `cs`.
pub open spec fn athlete_total(cs: Seq<Contribution>, name: Seq<char>) -> nat
    decreases cs.len(),
{
    if cs.len() == 0 {
        0
    } else {
        athlete_total(cs.drop_last(), name) + if cs.last().0 == name {
            cs.last().2
        } else {
            0
        }
    }
}

/// The contributions of `cs` that fall in the week starting on day `day`.
pub open spec fn in_week(cs: Seq<Contribution>, day: int) -> Seq<Contribution>
    decreases cs.len(),
{
    if cs.len() == 0 {
        cs
    } else if cs.last().1 == day {
        in_week(cs.drop_last(), day).push(cs.last())
    } else {
        in_week(cs.drop_last(), day)
    }
}

/// Total distance of the weeks of `cs` that start on or before day `day`.
pub open spec fn total_through(cs: Seq<Contribution>, day: int) -> nat
    decreases cs.len(),
{
    if cs.len() == 0 {
        0
    } else {
        total_through(cs.drop_last(), day) + if cs.last().1 <= day {
            cs.last().2
        } else {
            0
        }
    }
}

pub open spec fn has_athlete(cs: Seq<Contribution>, name: Seq<char>) -> bool {
    exists|k: int| 0 <= k < cs.len() && (#[trigger] cs[k]).0 == name
}

pub open spec fn has_week(cs: Seq<Contribution>, day: int) -> bool {
    exists|k: int| 0 <= k < cs.len() && (#[trigger] cs[k]).1 == day
}

/// `list` maps each athlete of `cs` once to that athlete's total distance.
pub open spec fn athlete_list_ok(list: Seq<(String, u128)>, cs: Seq<Contribution>) -> bool {
    &&& forall|i: int, j: int| 0 <= i < j < list.len() ==> list[i].0@ != list[j].0@
    &&& forall|i: int|
        0 <= i < list.len() ==> (#[trigger] list[i]).1 == athlete_total(cs, list[i].0@)
            && has_athlete(cs, list[i].0@)
    &&& forall|n: Seq<char>|
        #[trigger] has_athlete(cs, n) ==> exists|i: int| 0 <= i < list.len() && (#[trigger] list[i]).0@ == n
}

pub proof fn lemma_push(cs: Seq<Contribution>, c: Contribution)
    ensures
        cs.push(c).drop_last() == cs,
        total(cs.push(c)) == total(cs) + c.2,
        forall|n: Seq<char>| #[trigger]
            athlete_total(cs.push(c), n) == athlete_total(cs, n) + if c.0 == n {
                c.2
            } else {
                0
            },
        forall|d: int| #[trigger]
            in_week(cs.push(c), d) == if c.1 == d {
                in_week(cs, d).push(c)
            } else {
                in_week(cs, d)
            },
        forall|d: int| #[trigger]
            total_through(cs.push(c), d) == total_through(cs, d) + if c.1 <= d {
                c.2
            } else {
                0
            },
        forall|n: Seq<char>| #[trigger] has_athlete(cs.push(c), n) == (has_athlete(cs, n) || c.0 == n),
        forall|d: int| #[trigger] has_week(cs.push(c), d) == (has_week(cs, d) || c.1 == d),
{
    let s = cs.push(c);
    assert(s.drop_last() =~= cs);
    assert forall|n: Seq<char>| #[trigger] has_athlete(s, n) == (has_athlete(cs, n) || c.0 == n) by {
        if has_athlete(cs, n) {
            let k = choose|k: int| 0 <= k < cs.len() && (#[trigger] cs[k]).0 == n;
            assert(s[k] == cs[k]);
        }
        if c.0 == n {
            assert(s[cs.len() as int] == c);
        }
        if has_athlete(s, n) {
            let k = choose|k: int| 0 <= k < s.len() && (#[trigger] s[k]).0 == n;
            if k < cs.len() {
                assert(s[k] == cs[k]);
            }
        }
    }
    assert forall|d: int| #[trigger] has_week(s, d) == (has_week(cs, d) || c.1 == d) by {
        if has_week(cs, d) {
            let k = choose|k: int| 0 <= k < cs.len() && (#[trigger] cs[k]).1 == d;
            assert(s[k] == cs[k]);
        }
        if c.1 == d {
            assert(s[cs.len() as int] == c);
        }
        if has_week(s, d) {
            let k = choose|k: int| 0 <= k < s.len() && (#[trigger] s[k]).1 == d;
            if k < cs.len() {
                assert(s[k] == cs[k]);
            }
        }
    }
}

pub proof fn lemma_athlete_total_bounded(cs: Seq<Contribution>, n: Seq<char>)
    ensures
        athlete_total(cs, n) <= total(cs),
    decreases cs.len(),
{
    if cs.len() > 0 {
        lemma_athlete_total_bounded(cs.drop_last(), n);
    }
}

pub proof fn lemma_in_week_bounded(cs: Seq<Contribution>, d: int)
    ensures
        total(in_week(cs, d)) <= total(cs),
        total_through(cs, d) <= total(cs),
    decreases cs.len(),
{
    if cs.len() > 0 {
        lemma_in_week_bounded(cs.drop_last(), d);
        lemma_push(in_week(cs.drop_last(), d), cs.last());
    }
}

pub proof fn lemma_in_week_empty(cs: Seq<Contribution>, d: int)
    requires
        !has_week(cs, d),
    ensures
        in_week(cs, d) == Seq::<Contribution>::empty(),
    decreases cs.len(),
{
    if cs.len() > 0 {
        let p = cs.drop_last();
        assert(p.push(cs.last()) =~= cs);
        lemma_push(p, cs.last());
        lemma_in_week_empty(p, d);
    }
}

fn same_text(a: &String, b: &String) -> (r: bool)
    ensures
        r == (a@ == b@),
{
    *a == *b
}

/// Adds `mm` to athlete `name` in `list`, or enters the athlete with `mm`.
pub fn add_to_athlete(
    list: &mut Vec<(String, u128)>,
    name: &String,
    mm: u64,
    Ghost(cs): Ghost<Seq<Contribution>>,
    Ghost(day): Ghost<int>,
)
    requires
        athlete_list_ok(old(list)@, cs),
        total(cs) + mm <= u128::MAX,
    ensures
        athlete_list_ok(final(list)@, cs.push((name@, day, mm as nat))),
{
    let ghost c: Contribution = (name@, day, mm as nat);
    proof {
        lemma_push(cs, c);
    }
    let ghost s = cs.push(c);
    let mut i: usize = 0;
    while i < list.len()
        invariant
            i <= list@.len(),
            list@ == old(list)@,
            athlete_list_ok(old(list)@, cs),
            total(cs) + mm <= u128::MAX,
            c == (name@, day, mm as nat),
            s == cs.push(c),
            forall|j: int| 0 <= j < i ==> (#[trigger] list@[j]).0@ != name@,
        decreases list@.len() - i,
    {
        if same_text(&list[i].0, name) {
            proof {
                lemma_athlete_total_bounded(cs, name@);
                lemma_push(cs, c);
            }
            let v = list[i].1 + mm as u128;
            let n = list[i].0.clone();
            let ghost before = list@;
            list.set(i, (n, v));
            assert forall|n2: Seq<char>| #[trigger] has_athlete(s, n2) implies exists|k: int|
                0 <= k < list@.len() && (#[trigger] list@[k]).0@ == n2 by {
                if n2 != name@ {
                    assert(has_athlete(cs, n2));
                    let k = choose|k: int| 0 <= k < before.len() && (#[trigger] before[k]).0@ == n2;
                    assert(list@[k] == before[k]);
                } else {
                    assert(list@[i as int].0@ == n2);
                }
            }
            assert forall|a: int, b: int| 0 <= a < b < list@.len() implies list@[a].0@ != list@[b].0@ by {
                assert(before[a].0@ != before[b].0@);
            }
            return;
        }
        i = i + 1;
    }
    proof {
        lemma_push(cs, c);
    }
    let ghost before = list@;
    list.push((name.clone(), mm as u128));
    assert forall|n2: Seq<char>| #[trigger] has_athlete(s, n2) implies exists|k: int|
        0 <= k < list@.len() && (#[trigger] list@[k]).0@ == n2 by {
        if n2 != name@ {
            assert(has_athlete(cs, n2));
            let k = choose|k: int| 0 <= k < before.len() && (#[trigger] before[k]).0@ == n2;
            assert(list@[k] == before[k]);
        } else {
            assert(list@[before.len() as int].0@ == n2);
        }
    }
    assert forall|k: int| 0 <= k < list@.len() implies (#[trigger] list@[k]).1 == athlete_total(s, list@[k].0@)
        && has_athlete(s, list@[k].0@) by {
        if k < before.len() {
            assert(list@[k] == before[k]);
        } else {
            assert(!has_athlete(cs, name@)) by {
                if has_athlete(cs, name@) {
                    let j = choose|j: int| 0 <= j < before.len() && (#[trigger] before[j]).0@ == name@;
                }
            }
            lemma_athlete_total_zero(cs, name@);
        }
    }
}

pub proof fn lemma_athlete_total_zero(cs: Seq<Contribution>, n: Seq<char>)
    requires
        !has_athlete(cs, n),
    ensures
        athlete_total(cs, n) == 0,
    decreases cs.len(),
{
    if cs.len() > 0 {
        let p = cs.drop_last();
        assert(p.push(cs.last()) =~= cs);
        lemma_push(p, cs.last());
        lemma_athlete_total_zero(p, n);
    }
}

/// One week of a team's distance. Distances are millimetres.
#[derive(Debug)]
pub struct WeekData {
    /// The local day number (days since 1970-01-01) of the Monday that
    /// starts the week.
    pub week_start_day: i64,
    /// Midnight at the start of that Monday, in the reference timezone.
    pub week_start: ActivityTime,
    pub weekly_team_millimeters: u128,
    /// The team's distance over this week and all earlier ones.
    pub weekly_running_sum: u128,
    pub weekly_athlete_millimeters: Vec<(String, u128)>,
}

/// Week `w` holds exactly what `cs` has in its week.
pub open spec fn week_ok(w: WeekData, cs: Seq<Contribution>) -> bool {
    let d = w.week_start_day as int;
    &&& has_week(cs, d)
    &&& week_start_time(d) == Some(w.week_start)
    &&& w.weekly_team_millimeters == total(in_week(cs, d))
    &&& athlete_list_ok(w.weekly_athlete_millimeters@, in_week(cs, d))
}

/// `ws` holds one week for each week of `cs`, in ascending order.
pub open spec fn weeks_ok(ws: Seq<WeekData>, cs: Seq<Contribution>) -> bool {
    &&& forall|i: int, j: int| 0 <= i < j < ws.len() ==> ws[i].week_start_day < ws[j].week_start_day
    &&& forall|i: int| 0 <= i < ws.len() ==> week_ok(#[trigger] ws[i], cs)
    &&& forall|d: int|
        #[trigger] has_week(cs, d) ==> exists|i: int|
            0 <= i < ws.len() && (#[trigger] ws[i]).week_start_day == d
}

/// Adds `mm` by athlete `name` to the week starting on day `day`, entering
/// that week in its place when it is new.
pub fn add_to_week(
    ws: &mut Vec<WeekData>,
    day: i64,
    start: ActivityTime,
    name: &String,
    mm: u64,
    Ghost(cs): Ghost<Seq<Contribution>>,
)
    requires
        weeks_ok(old(ws)@, cs),
        week_start_time(day as int) == Some(start),
        total(cs) + mm <= u128::MAX,
    ensures
        weeks_ok(final(ws)@, cs.push((name@, day as int, mm as nat))),
{
    let ghost c: Contribution = (name@, day as int, mm as nat);
    let ghost s = cs.push(c);
    proof {
        lemma_push(cs, c);
    }
    let mut p: usize = 0;
    while p < ws.len() && ws[p].week_start_day < day
        invariant
            p <= ws@.len(),
            ws@ == old(ws)@,
            forall|j: int| 0 <= j < p ==> (#[trigger] ws@[j]).week_start_day < day,
        decreases ws@.len() - p,
    {
        p = p + 1;
    }
    let ghost before = ws@;
    if p < ws.len() && ws[p].week_start_day == day {
        let mut w = ws.remove(p);
        proof {
            lemma_in_week_bounded(cs, day as int);
            lemma_push(in_week(cs, day as int), c);
        }
        w.weekly_team_millimeters = w.weekly_team_millimeters + mm as u128;
        add_to_athlete(&mut w.weekly_athlete_millimeters, name, mm, Ghost(in_week(cs, day as int)), Ghost(day as int));
        ws.insert(p, w);
        assert(ws@ =~= before.update(p as int, w));
        assert forall|i: int| 0 <= i < ws@.len() implies week_ok(#[trigger] ws@[i], s) by {
            if i != p {
                assert(ws@[i] == before[i]);
                assert(week_ok(before[i], cs));
            }
        }
        assert forall|d: int| #[trigger] has_week(s, d) implies exists|i: int|
            0 <= i < ws@.len() && (#[trigger] ws@[i]).week_start_day == d by {
            if d != day {
                assert(has_week(cs, d));
                let k = choose|k: int| 0 <= k < before.len() && (#[trigger] before[k]).week_start_day == d;
                assert(ws@[k] == before[k]);
            } else {
                assert(ws@[p as int].week_start_day == d);
            }
        }
    } else {
        let mut athletes: Vec<(String, u128)> = Vec::new();
        proof {
            assert(!has_week(cs, day as int)) by {
                if has_week(cs, day as int) {
                    let k = choose|k: int| 0 <= k < before.len() && (#[trigger] before[k]).week_start_day == day;
                    if k < p {
                    } else {
                        assert(before[p as int].week_start_day <= before[k].week_start_day);
                    }
                }
            }
            lemma_in_week_empty(cs, day as int);
            assert(athlete_list_ok(athletes@, in_week(cs, day as int)));
        }
        add_to_athlete(&mut athletes, name, mm, Ghost(in_week(cs, day as int)), Ghost(day as int));
        let w = WeekData {
            week_start_day: day,
            week_start: start,
            weekly_team_millimeters: mm as u128,
            weekly_running_sum: 0,
            weekly_athlete_millimeters: athletes,
        };
        proof {
            lemma_push(in_week(cs, day as int), c);
            assert(in_week(s, day as int) == seq![c]);
        }
        ws.insert(p, w);
        assert forall|i: int| 0 <= i < ws@.len() implies week_ok(#[trigger] ws@[i], s) by {
            if i < p {
                assert(ws@[i] == before[i]);
                assert(week_ok(before[i], cs));
            } else if i > p {
                assert(ws@[i] == before[i - 1]);
                assert(week_ok(before[i - 1], cs));
            }
        }
        assert forall|i: int, j: int| 0 <= i < j < ws@.len() implies ws@[i].week_start_day < ws@[j].week_start_day by {
            if j < p {
            } else if j == p {
                assert(ws@[i] == before[i]);
            } else if i < p {
                assert(ws@[i] == before[i]);
                assert(ws@[j] == before[j - 1]);
                assert(before[p as int].week_start_day > day);
            } else if i == p {
                assert(ws@[j] == before[j - 1]);
                assert(before[p as int].week_start_day > day);
            } else {
                assert(ws@[i] == before[i - 1]);
                assert(ws@[j] == before[j - 1]);
            }
        }
        assert forall|d: int| #[trigger] has_week(s, d) implies exists|i: int|
            0 <= i < ws@.len() && (#[trigger] ws@[i]).week_start_day == d by {
            if d != day {
                assert(has_week(cs, d));
                let k = choose|k: int| 0 <= k < before.len() && (#[trigger] before[k]).week_start_day == d;
                if k < p {
                    assert(ws@[k] == before[k]);
                } else {
                    assert(ws@[k + 1] == before[k]);
                }
            } else {
                assert(ws@[p as int].week_start_day == d);
            }
        }
    }
}

/// The Monday day numbers of `ws`, in order.
pub open spec fn week_days(ws: Seq<WeekData>) -> Seq<int> {
    ws.map_values(|w: WeekData| w.week_start_day as int)
}

/// Total distance of the first `n` weeks of `ws`.
pub open spec fn prefix_total(ws: Seq<WeekData>, n: int) -> nat
    decreases n,
{
    if n <= 0 || n > ws.len() {
        0
    } else {
        prefix_total(ws, n - 1) + ws[n - 1].weekly_team_millimeters as nat
    }
}

/// Total distance of `cs` in the weeks `keys[0..n]`.
pub open spec fn key_sum(cs: Seq<Contribution>, keys: Seq<int>, n: int) -> nat
    decreases n,
{
    if n <= 0 {
        0
    } else {
        key_sum(cs, keys, n - 1) + total(in_week(cs, keys[n - 1]))
    }
}

/// How many of `keys[0..n]` equal `d`.
pub open spec fn count_eq(keys: Seq<int>, n: int, d: int) -> nat
    decreases n,
{
    if n <= 0 {
        0
    } else {
        count_eq(keys, n - 1, d) + if keys[n - 1] == d {
            1nat
        } else {
            0nat
        }
    }
}

pub open spec fn strictly_ascending(keys: Seq<int>) -> bool {
    forall|i: int, j: int| 0 <= i < j < keys.len() ==> keys[i] < keys[j]
}

proof fn lemma_key_sum_push(cs: Seq<Contribution>, c: Contribution, keys: Seq<int>, n: int)
    requires
        0 <= n <= keys.len(),
    ensures
        key_sum(cs.push(c), keys, n) == key_sum(cs, keys, n) + count_eq(keys, n, c.1) * c.2,
    decreases n,
{
    lemma_push(cs, c);
    if n > 0 {
        lemma_key_sum_push(cs, c, keys, n - 1);
        let k = keys[n - 1];
        lemma_push(in_week(cs, k), c);
        assert(key_sum(cs.push(c), keys, n) == key_sum(cs.push(c), keys, n - 1) + total(
            in_week(cs.push(c), k),
        ));
        assert(total(in_week(cs.push(c), k)) == total(in_week(cs, k)) + if k == c.1 {
            c.2
        } else {
            0
        });
        let a = count_eq(keys, n - 1, c.1);
        let b: nat = if k == c.1 {
            1nat
        } else {
            0nat
        };
        assert(count_eq(keys, n, c.1) == a + b);
        assert((a + b) * c.2 == a * c.2 + b * c.2) by (nonlinear_arith);
        if k == c.1 {
            assert(b * c.2 == c.2);
        } else {
            assert(b * c.2 == 0);
        }
        assert(key_sum(cs, keys, n) == key_sum(cs, keys, n - 1) + total(in_week(cs, k)));
    } else {
        assert(count_eq(keys, n, c.1) == 0);
        assert(0 * c.2 == 0) by (nonlinear_arith);
    }
}

proof fn lemma_count_eq_unique(keys: Seq<int>, m: int, n: int)
    requires
        strictly_ascending(keys),
        0 <= m < keys.len(),
        0 <= n <= keys.len(),
    ensures
        count_eq(keys, n, keys[m]) == if m < n {
            1nat
        } else {
            0nat
        },
    decreases n,
{
    if n > 0 {
        lemma_count_eq_unique(keys, m, n - 1);
    }
}

/// Over ascending week keys that cover every week of `cs`, the distance of
/// the first `i + 1` weeks is the distance of all weeks up to `keys[i]`.
proof fn lemma_key_sum_through(cs: Seq<Contribution>, keys: Seq<int>, i: int)
    requires
        strictly_ascending(keys),
        0 <= i < keys.len(),
        forall|k: int| 0 <= k < cs.len() ==> keys.contains(#[trigger] cs[k].1),
    ensures
        key_sum(cs, keys, i + 1) == total_through(cs, keys[i]),
    decreases cs.len(),
{
    if cs.len() == 0 {
        lemma_key_sum_empty(cs, keys, i + 1);
    } else {
        let p = cs.drop_last();
        let c = cs.last();
        assert(p.push(c) =~= cs);
        assert forall|k: int| 0 <= k < p.len() implies keys.contains(#[trigger] p[k].1) by {
            assert(p[k] == cs[k]);
        }
        lemma_key_sum_through(p, keys, i);
        lemma_key_sum_push(p, c, keys, i + 1);
        lemma_push(p, c);
        assert(keys.contains(cs[cs.len() - 1].1));
        let m = choose|m: int| 0 <= m < keys.len() && keys[m] == c.1;
        lemma_count_eq_unique(keys, m, i + 1);
        assert((m <= i) == (keys[m] <= keys[i]));
    }
}

proof fn lemma_key_sum_empty(cs: Seq<Contribution>, keys: Seq<int>, n: int)
    requires
        cs.len() == 0,
    ensures
        key_sum(cs, keys, n) == 0,
    decreases n,
{
    if n > 0 {
        lemma_key_sum_empty(cs, keys, n - 1);
    }
}

proof fn lemma_prefix_is_key_sum(ws: Seq<WeekData>, cs: Seq<Contribution>, n: int)
    requires
        weeks_ok(ws, cs),
        0 <= n <= ws.len(),
    ensures
        prefix_total(ws, n) == key_sum(cs, week_days(ws), n),
    decreases n,
{
    if n > 0 {
        lemma_prefix_is_key_sum(ws, cs, n - 1);
        assert(week_ok(ws[n - 1], cs));
    }
}

/// The running sum of each week of `ws` is the distance of that week and all
/// earlier ones.
pub open spec fn running_ok(ws: Seq<WeekData>) -> bool {
    forall|i: int| 0 <= i < ws.len() ==> (#[trigger] ws[i]).weekly_running_sum == prefix_total(ws, i + 1)
}

/// Fills in the running sums of weeks that are in ascending order.
pub fn convert_weekly_map_to_vec(weekly: Vec<WeekData>, Ghost(cs): Ghost<Seq<Contribution>>) -> (r: Vec<WeekData>)
    requires
        weeks_ok(weekly@, cs),
        total(cs) <= u128::MAX,
    ensures
        weeks_ok(r@, cs),
        running_ok(r@),
        forall|i: int|
            0 <= i < r@.len() ==> (#[trigger] r@[i]).weekly_running_sum == total_through(
                cs,
                r@[i].week_start_day as int,
            ),
{
    let mut ws = weekly;
    let ghost keys = week_days(ws@);
    proof {
        assert forall|k: int| 0 <= k < cs.len() implies keys.contains(#[trigger] cs[k].1) by {
            assert(has_week(cs, cs[k].1));
            let i = choose|i: int| 0 <= i < ws@.len() && (#[trigger] ws@[i]).week_start_day == cs[k].1;
            assert(keys[i] == cs[k].1);
        }
    }
    let mut running: u128 = 0;
    let mut i: usize = 0;
    while i < ws.len()
        invariant
            i <= ws@.len(),
            weeks_ok(ws@, cs),
            keys == week_days(ws@),
            strictly_ascending(keys),
            total(cs) <= u128::MAX,
            forall|k: int| 0 <= k < cs.len() ==> keys.contains(#[trigger] cs[k].1),
            running == prefix_total(ws@, i as int),
            forall|j: int| 0 <= j < i ==> (#[trigger] ws@[j]).weekly_running_sum == prefix_total(ws@, j + 1),
        decreases ws@.len() - i,
    {
        let ghost before = ws@;
        proof {
            lemma_prefix_is_key_sum(ws@, cs, i + 1);
            lemma_key_sum_through(cs, keys, i as int);
            lemma_in_week_bounded(cs, keys[i as int]);
        }
        let mut w = ws.remove(i);
        running = running + w.weekly_team_millimeters;
        w.weekly_running_sum = running;
        ws.insert(i, w);
        assert(ws@ =~= before.update(i as int, w));
        assert(keys =~= week_days(ws@));
        assert forall|n: int| 0 <= n <= ws@.len() implies prefix_total(ws@, n) == prefix_total(before, n) by {
            lemma_prefix_same(ws@, before, n);
        }
        assert forall|j: int| 0 <= j < ws@.len() implies week_ok(#[trigger] ws@[j], cs) by {
            assert(week_ok(before[j], cs));
        }
        i = i + 1;
    }
    assert forall|j: int| 0 <= j < ws@.len() implies (#[trigger] ws@[j]).weekly_running_sum == total_through(
        cs,
        ws@[j].week_start_day as int,
    ) by {
        lemma_prefix_is_key_sum(ws@, cs, j + 1);
        lemma_key_sum_through(cs, keys, j);
    }
    ws
}

proof fn lemma_prefix_same(a: Seq<WeekData>, b: Seq<WeekData>, n: int)
    requires
        a.len() == b.len(),
        forall|j: int| 0 <= j < a.len() ==> a[j].weekly_team_millimeters == b[j].weekly_team_millimeters,
    ensures
        prefix_total(a, n) == prefix_total(b, n),
    decreases n,
{
    if n > 0 && n <= a.len() {
        lemma_prefix_same(a, b, n - 1);
    }
}

} // verus!
