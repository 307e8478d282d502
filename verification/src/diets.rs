//! Diets, their calendars, and the discovery of the days that are open for
//! selection.

use vstd::prelude::*;
use crate::date::Date;
use crate::date::MAX_DAYS;

verus! {

/// How many days ahead of its start the discovery window reaches.
pub const WINDOW_DAYS: u32 = 14;

/// One diet: its identifier and the first and last day of delivery.
#[derive(Debug)]
pub struct Diet {
    pub id: i64,
    pub first_delivery_date: Date,
    pub last_delivery_date: Date,
}

/// The diets of the account.
#[derive(Debug)]
pub struct DietsList {
    pub members: Vec<Diet>,
}

/// What the service says of one day of a diet.
#[derive(Debug, Clone, Copy, PartialEq, Eq, PartialOrd, Ord, Structural)]
pub enum DietDayState {
    NoDiet,
    Delivered,
    CannotChange,
    AvailableToSelect,
    WithoutMenu,
}

/// The state of one calendar day.
#[derive(Debug)]
pub struct DietCalendarDay {
    pub state: DietDayState,
}

/// The calendar of one diet over a range of days: each day with its state.
#[derive(Debug)]
pub struct Calendar {
    pub days: Vec<(Date, DietCalendarDay)>,
}

impl Diet {
    /// Whether the diet delivers on `date`.
    pub open spec fn covers(&self, date: Date) -> bool {
        self.first_delivery_date.ord() <= date.ord() <= self.last_delivery_date.ord()
    }

    /// Whether the diet delivers on some day from `from` to `to`.
    pub open spec fn overlaps(&self, from: Date, to: Date) -> bool {
        self.first_delivery_date.ord() <= to.ord() && from.ord() <= self.last_delivery_date.ord()
    }
}

/// The values behind a sequence of references to diets.
pub open spec fn diet_referents(refs: Seq<&Diet>) -> Seq<Diet> {
    refs.map_values(|d: &Diet| *d)
}

/// The diets of `diets` that deliver on some day from `from` to `to`.
pub open spec fn diets_overlapping(diets: Seq<Diet>, from: Date, to: Date) -> Seq<Diet> {
    diets.filter(|d: Diet| d.overlaps(from, to))
}

/// Whether `i` is the first place in `diets` of a diet that delivers on `date`.
pub open spec fn is_first_covering(diets: Seq<Diet>, date: Date, i: int) -> bool {
    &&& 0 <= i < diets.len()
    &&& diets[i].covers(date)
    &&& forall|j: int| 0 <= j < i ==> !diets[j].covers(date)
}

/// The first diet of `diets` that delivers on `date`.
pub open spec fn covering_diet(diets: Seq<Diet>, date: Date) -> Option<Diet>
    decreases diets.len(),
{
    if diets.len() == 0 {
        None
    } else if diets[0].covers(date) {
        Some(diets[0])
    } else {
        covering_diet(diets.drop_first(), date)
    }
}

/// The diet at the first place that delivers on `date` is the covering diet.
pub proof fn lemma_covering_found(diets: Seq<Diet>, date: Date, i: int)
    requires
        is_first_covering(diets, date, i),
    ensures
        covering_diet(diets, date) == Some(diets[i]),
    decreases diets.len(),
{
    if i > 0 {
        let rest = diets.drop_first();
        assert(!diets[0].covers(date));
        assert forall|j: int| 0 <= j < i - 1 implies !rest[j].covers(date) by {
            assert(rest[j] == diets[j + 1]);
        }
        assert(rest[i - 1] == diets[i]);
        lemma_covering_found(rest, date, i - 1);
    }
}

/// Where no diet delivers on `date`, there is no covering diet.
pub proof fn lemma_covering_none(diets: Seq<Diet>, date: Date)
    requires
        forall|j: int| 0 <= j < diets.len() ==> !diets[j].covers(date),
    ensures
        covering_diet(diets, date) is None,
    decreases diets.len(),
{
    if diets.len() > 0 {
        let rest = diets.drop_first();
        assert(!diets[0].covers(date));
        assert forall|j: int| 0 <= j < rest.len() implies !rest[j].covers(date) by {
            assert(rest[j] == diets[j + 1]);
        }
        lemma_covering_none(rest, date);
    }
}

impl DietsList {
    /// The first diet that delivers on `date`.
    pub fn diet_for_date(&self, date: &Date) -> (r: Option<&Diet>)
        ensures
            r is Some <==> covering_diet(self.members@, *date) is Some,
            r matches Some(d) ==> covering_diet(self.members@, *date) == Some(*d),
    {
        let mut i: usize = 0;
        while i < self.members.len()
            invariant
                i <= self.members@.len(),
                forall|j: int| 0 <= j < i ==> !self.members@[j].covers(*date),
            decreases self.members@.len() - i,
        {
            let diet = &self.members[i];
            if diet.first_delivery_date.days() <= date.days() && date.days()
                <= diet.last_delivery_date.days() {
                proof {
                    lemma_covering_found(self.members@, *date, i as int);
                }
                return Some(diet);
            }
            i += 1;
        }
        proof {
            lemma_covering_none(self.members@, *date);
        }
        None
    }

    /// The diets that deliver on some day from `from` to `to`, in their order.
    pub fn diets_in_time_range(&self, from: &Date, to: &Date) -> (r: Vec<&Diet>)
        ensures
            diet_referents(r@) == diets_overlapping(self.members@, *from, *to),
    {
        let mut out: Vec<&Diet> = Vec::new();
        let mut i: usize = 0;
        assert(self.members@.take(0) =~= Seq::<Diet>::empty());
        assert(diet_referents(out@) =~= diets_overlapping(self.members@.take(0), *from, *to));
        while i < self.members.len()
            invariant
                i <= self.members@.len(),
                diet_referents(out@) == diets_overlapping(
                    self.members@.take(i as int),
                    *from,
                    *to,
                ),
            decreases self.members@.len() - i,
        {
            let diet = &self.members[i];
            proof {
                let prefix = self.members@.take(i as int);
                assert(self.members@.take(i + 1) =~= prefix.push(*diet));
                prefix.lemma_filter_push(*diet, |d: Diet| d.overlaps(*from, *to));
            }
            let ghost before = out@;
            if diet.first_delivery_date.days() <= to.days() && from.days()
                <= diet.last_delivery_date.days() {
                out.push(diet);
                assert(diet_referents(out@) =~= diet_referents(before).push(*diet));
            }
            i += 1;
        }
        assert(self.members@.take(i as int) =~= self.members@);
        out
    }
}

/// The window in which days are looked for: from the stored day to check
/// next, or from today where none is stored, `WINDOW_DAYS` days ahead.
/// `None` where the end of the window is a day that a `Date` cannot hold.
pub fn discovery_window(next_day_to_check: Option<Date>, today: Date) -> (r: Option<(Date, Date)>)
    ensures
        r is Some <==> window_start(next_day_to_check, today).ord() + WINDOW_DAYS <= MAX_DAYS,
        r matches Some((from, to)) ==> from == window_start(next_day_to_check, today) && to.ord()
            == from.ord() + WINDOW_DAYS,
{
    let from = match next_day_to_check {
        Some(day) => day,
        None => today,
    };
    match from.plus_days(WINDOW_DAYS) {
        Some(to) => Some((from, to)),
        None => None,
    }
}

/// Where the discovery window starts.
pub open spec fn window_start(next_day_to_check: Option<Date>, today: Date) -> Date {
    match next_day_to_check {
        Some(day) => day,
        None => today,
    }
}

/// Whether entry `e` of calendar `c` marks a day as open for selection.
pub open spec fn open_at(calendars: Seq<Calendar>, c: int, e: int) -> bool {
    &&& 0 <= c < calendars.len()
    &&& 0 <= e < calendars[c].days@.len()
    &&& calendars[c].days@[e].1.state == DietDayState::AvailableToSelect
}

/// Whether some calendar marks `day` as open for selection.
pub open spec fn is_open_day(calendars: Seq<Calendar>, day: Date) -> bool {
    exists|c: int, e: int| #[trigger] open_at(calendars, c, e) && calendars[c].days@[e].0 == day
}

/// Whether the days come in strictly ascending order, so that none occurs
/// twice.
pub open spec fn strictly_ascending(days: Seq<Date>) -> bool {
    forall|i: int, j: int| 0 <= i < j < days.len() ==> days[i].ord() < days[j].ord()
}

/// Puts `day` into an ascending list of days at its place, unless it is
/// there already.
pub fn insert_day(days: &mut Vec<Date>, day: Date)
    requires
        strictly_ascending(old(days)@),
    ensures
        strictly_ascending(final(days)@),
        forall|d: Date| #[trigger] final(days)@.contains(d) <==> old(days)@.contains(d) || d == day,
{
    let mut p: usize = 0;
    while p < days.len() && days[p].days() < day.days()
        invariant
            p <= days@.len(),
            days@ == old(days)@,
            forall|j: int| 0 <= j < p ==> days@[j].ord() < day.ord(),
        decreases days@.len() - p,
    {
        p += 1;
    }
    if p < days.len() && days[p].days() == day.days() {
        proof {
            crate::date::lemma_date_by_number(days@[p as int], day);
            assert(days@.contains(day));
        }
        return ;
    }
    let ghost before = days@;
    days.insert(p, day);
    proof {
        assert(before == old(days)@);
        assert(days@ == before.insert(p as int, day));
        assert forall|i: int, j: int| 0 <= i < j < days@.len() implies days@[i].ord() < days@[j].ord() by {
            if j < p {
                assert(days@[i] == before[i] && days@[j] == before[j]);
            } else if j == p {
                assert(days@[i] == before[i]);
            } else if i < p {
                assert(days@[i] == before[i] && days@[j] == before[j - 1]);
            } else if i == p {
                assert(days@[j] == before[j - 1]);
            } else {
                assert(days@[i] == before[i - 1] && days@[j] == before[j - 1]);
            }
        }
        assert forall|d: Date| #[trigger] days@.contains(d) <==> before.contains(d) || d == day by {
            if days@.contains(d) {
                let k = choose|k: int| 0 <= k < days@.len() && days@[k] == d;
                if k < p {
                    assert(before[k] == d);
                } else if k > p {
                    assert(before[k - 1] == d);
                }
            }
            if before.contains(d) {
                let k = choose|k: int| 0 <= k < before.len() && before[k] == d;
                if k < p {
                    assert(days@[k] == d);
                } else {
                    assert(days@[k + 1] == d);
                }
            }
            if d == day {
                assert(days@[p as int] == d);
            }
        }
    }
}

/// The days that the calendars mark as open for selection, each once, in
/// ascending order.
pub fn days_available_to_select(calendars: &Vec<Calendar>) -> (days: Vec<Date>)
    ensures
        strictly_ascending(days@),
        forall|d: Date|
            #![trigger days@.contains(d)]
            #![trigger is_open_day(calendars@, d)]
            days@.contains(d) <==> is_open_day(calendars@, d),
{
    let mut days: Vec<Date> = Vec::new();
    let mut c: usize = 0;
    while c < calendars.len()
        invariant
            c <= calendars@.len(),
            strictly_ascending(days@),
            forall|d: Date|
                days@.contains(d) <==> exists|a: int, b: int|
                    #[trigger] open_at(calendars@, a, b) && a < c && calendars@[a].days@[b].0 == d,
        decreases calendars@.len() - c,
    {
        let entries = &calendars[c].days;
        let mut e: usize = 0;
        while e < entries.len()
            invariant
                c < calendars@.len(),
                e <= entries@.len(),
                entries@ == calendars@[c as int].days@,
                strictly_ascending(days@),
                forall|d: Date|
                    days@.contains(d) <==> exists|a: int, b: int|
                        #[trigger] open_at(calendars@, a, b) && (a < c || (a == c && b < e))
                            && calendars@[a].days@[b].0 == d,
            decreases entries@.len() - e,
        {
            let ghost before = days@;
            if entries[e].1.state == DietDayState::AvailableToSelect {
                insert_day(&mut days, entries[e].0);
                assert(open_at(calendars@, c as int, e as int));
            }
            proof {
                assert forall|d: Date|
                    days@.contains(d) <==> exists|a: int, b: int|
                        #[trigger] open_at(calendars@, a, b) && (a < c || (a == c && b < e + 1))
                            && calendars@[a].days@[b].0 == d by {
                    if days@.contains(d) {
                        if before.contains(d) {
                            let (a, b) = choose|a: int, b: int|
                                #[trigger] open_at(calendars@, a, b) && (a < c || (a == c && b
                                    < e)) && calendars@[a].days@[b].0 == d;
                            assert(open_at(calendars@, a, b) && (a < c || (a == c && b < e + 1))
                                && calendars@[a].days@[b].0 == d);
                        } else {
                            assert(open_at(calendars@, c as int, e as int));
                        }
                    }
                    if exists|a: int, b: int|
                        #[trigger] open_at(calendars@, a, b) && (a < c || (a == c && b < e + 1))
                            && calendars@[a].days@[b].0 == d {
                        let (a, b) = choose|a: int, b: int|
                            #[trigger] open_at(calendars@, a, b) && (a < c || (a == c && b < e
                                + 1)) && calendars@[a].days@[b].0 == d;
                        if a == c && b == e {
                        } else {
                            assert(open_at(calendars@, a, b) && (a < c || (a == c && b < e))
                                && calendars@[a].days@[b].0 == d);
                        }
                    }
                }
            }
            e += 1;
        }
        proof {
            assert forall|d: Date|
                days@.contains(d) <==> exists|a: int, b: int|
                    #[trigger] open_at(calendars@, a, b) && a < c + 1 && calendars@[a].days@[b].0
                        == d by {
                if days@.contains(d) {
                    let (a, b) = choose|a: int, b: int|
                        #[trigger] open_at(calendars@, a, b) && (a < c || (a == c && b < e))
                            && calendars@[a].days@[b].0 == d;
                    assert(open_at(calendars@, a, b) && a < c + 1 && calendars@[a].days@[b].0 == d);
                }
                if exists|a: int, b: int|
                    #[trigger] open_at(calendars@, a, b) && a < c + 1 && calendars@[a].days@[b].0
                        == d {
                    let (a, b) = choose|a: int, b: int|
                        #[trigger] open_at(calendars@, a, b) && a < c + 1
                            && calendars@[a].days@[b].0 == d;
                    assert(open_at(calendars@, a, b) && (a < c || (a == c && b < e))
                        && calendars@[a].days@[b].0 == d);
                }
            }
        }
        c += 1;
    }
    proof {
        assert forall|d: Date| days@.contains(d) <==> is_open_day(calendars@, d) by {
            if days@.contains(d) {
                let (a, b) = choose|a: int, b: int|
                    #[trigger] open_at(calendars@, a, b) && a < c && calendars@[a].days@[b].0 == d;
                assert(open_at(calendars@, a, b) && calendars@[a].days@[b].0 == d);
            }
            if is_open_day(calendars@, d) {
                let (a, b) = choose|a: int, b: int|
                    #[trigger] open_at(calendars@, a, b) && calendars@[a].days@[b].0 == d;
                assert(open_at(calendars@, a, b) && a < c && calendars@[a].days@[b].0 == d);
            }
        }
    }
    days
}

/// Days in strictly ascending order hold no day twice.
pub proof fn law_ascending_days_are_distinct(days: Seq<Date>)
    requires
        strictly_ascending(days),
    ensures
        days.no_duplicates(),
{
    assert forall|i: int, j: int| 0 <= i < days.len() && 0 <= j < days.len() && i != j implies days[i]
        != days[j] by {
        if i < j {
            assert(days[i].ord() < days[j].ord());
        } else {
            assert(days[j].ord() < days[i].ord());
        }
    }
}

/// Two lists of days in strictly ascending order that hold the same days are
/// the same list: what discovery hands back is decided by the calendars.
pub proof fn law_ascending_days_are_decided(a: Seq<Date>, b: Seq<Date>)
    requires
        strictly_ascending(a),
        strictly_ascending(b),
        forall|d: Date| a.contains(d) <==> b.contains(d),
    ensures
        a == b,
    decreases a.len(),
{
    if a.len() == 0 {
        if b.len() > 0 {
            assert(b.contains(b[0]));
        }
        assert(a =~= b);
    } else {
        let top = a.last();
        assert(a.contains(top));
        assert(b.contains(top));
        let at = choose|k: int| 0 <= k < b.len() && b[k] == top;
        assert(b.contains(b.last()));
        assert(a.contains(b.last()));
        let back = choose|k: int| 0 <= k < a.len() && a[k] == b.last();
        assert(at == b.len() - 1) by {
            if at < b.len() - 1 {
                assert(b[at].ord() < b[b.len() - 1].ord());
                if back < a.len() - 1 {
                    assert(a[back].ord() < a[a.len() - 1].ord());
                }
            }
        }
        let a0 = a.drop_last();
        let b0 = b.drop_last();
        assert forall|d: Date| a0.contains(d) <==> b0.contains(d) by {
            if a0.contains(d) {
                let k = choose|k: int| 0 <= k < a0.len() && a0[k] == d;
                assert(a[k] == d);
                assert(a.contains(d));
                let l = choose|l: int| 0 <= l < b.len() && b[l] == d;
                assert(a[k].ord() < a[a.len() - 1].ord());
                assert(l < b.len() - 1);
                assert(b0[l] == d);
            }
            if b0.contains(d) {
                let l = choose|l: int| 0 <= l < b0.len() && b0[l] == d;
                assert(b[l] == d);
                assert(b.contains(d));
                let k = choose|k: int| 0 <= k < a.len() && a[k] == d;
                assert(b[l].ord() < b[b.len() - 1].ord());
                assert(k < a.len() - 1);
                assert(a0[k] == d);
            }
        }
        law_ascending_days_are_decided(a0, b0);
        assert(a =~= a0.push(top));
        assert(b =~= b0.push(top));
    }
}

} // verus!
