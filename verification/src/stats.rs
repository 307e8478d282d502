//! How often each dish occurs in the menus of a run of days.

use vstd::prelude::*;
use crate::history::key_position;
use crate::history::lemma_key_position;
use crate::menu::CalendarDayItems;
use crate::menu::DishItem;
use crate::menu::MenuDietOption;
use crate::text::same_text;

verus! {

/// One dish with the name it was first seen under and the number of options
/// that hold it.
#[derive(Debug)]
pub struct DishCount {
    pub id: String,
    pub name: String,
    pub count: u64,
}

/// All options of the meal slots, slot after slot.
pub open spec fn options_of_items(items: Seq<DishItem>) -> Seq<MenuDietOption>
    decreases items.len(),
{
    if items.len() == 0 {
        Seq::empty()
    } else {
        options_of_items(items.drop_last()) + items.last().options@
    }
}

/// All options of the days, day after day.
pub open spec fn options_of_days(days: Seq<CalendarDayItems>) -> Seq<MenuDietOption>
    decreases days.len(),
{
    if days.len() == 0 {
        Seq::empty()
    } else {
        options_of_days(days.drop_last()) + options_of_items(days.last().items())
    }
}

/// A count one higher, as far as a `u64` can hold it.
pub open spec fn one_more(count: u64) -> u64 {
    if count < u64::MAX {
        (count + 1) as u64
    } else {
        count
    }
}

/// The tally after one more option with the given dish and name: the count
/// of the dish goes up by one, or the dish is entered last with a count of
/// one and this name.
pub open spec fn counted(
    tally: Seq<(Seq<char>, (Seq<char>, u64))>,
    id: Seq<char>,
    name: Seq<char>,
) -> Seq<(Seq<char>, (Seq<char>, u64))> {
    let p = key_position(tally, id);
    if 0 <= p < tally.len() {
        tally.update(p, (id, (tally[p].1.0, one_more(tally[p].1.1))))
    } else {
        tally.push((id, (name, 1u64)))
    }
}

/// The tally of a run of options: each dish in the order of its first
/// option, with that option's name and the number of options that hold it.
pub open spec fn tally_of(options: Seq<MenuDietOption>) -> Seq<(Seq<char>, (Seq<char>, u64))>
    decreases options.len(),
{
    if options.len() == 0 {
        Seq::empty()
    } else {
        counted(tally_of(options.drop_last()), options.last().dish.id@, options.last().name@)
    }
}

/// What a list of counts holds: each dish with its name and count.
pub open spec fn tally_entries(counts: Seq<DishCount>) -> Seq<(Seq<char>, (Seq<char>, u64))> {
    counts.map_values(|c: DishCount| (c.id@, (c.name@, c.count)))
}

/// Takes one more option into the tally.
pub fn count_option(tally: &mut Vec<DishCount>, option: &MenuDietOption)
    ensures
        tally_entries(final(tally)@) == counted(
            tally_entries(old(tally)@),
            option.dish.id@,
            option.name@,
        ),
{
    let ghost entries = tally_entries(tally@);
    let mut i: usize = 0;
    while i < tally.len()
        invariant
            i <= tally@.len(),
            tally@ == old(tally)@,
            entries == tally_entries(tally@),
            forall|j: int| 0 <= j < i ==> entries[j].0 != option.dish.id@,
        decreases tally@.len() - i,
    {
        assert(entries[i as int].0 == tally@[i as int].id@);
        if same_text(tally[i].id.as_str(), option.dish.id.as_str()) {
            proof {
                lemma_key_position(entries, option.dish.id@);
                let p = key_position(entries, option.dish.id@);
                if p < i {
                    assert(entries[p].0 == option.dish.id@);
                }
            }
            let count = tally[i].count;
            if count < u64::MAX {
                tally[i].count = count + 1;
            }
            assert(tally_entries(tally@) =~= counted(entries, option.dish.id@, option.name@));
            return ;
        }
        i += 1;
    }
    proof {
        lemma_key_position(entries, option.dish.id@);
        let p = key_position(entries, option.dish.id@);
        if p < entries.len() {
            assert(entries[p].0 == option.dish.id@);
        }
    }
    tally.push(DishCount { id: option.dish.id.clone(), name: option.name.clone(), count: 1 });
    assert(tally_entries(tally@) =~= counted(entries, option.dish.id@, option.name@));
}

/// The tally of all options of the days, on offer or not.
pub fn dish_counts(days: &Vec<CalendarDayItems>) -> (r: Vec<DishCount>)
    ensures
        tally_entries(r@) == tally_of(options_of_days(days@)),
{
    let mut tally: Vec<DishCount> = Vec::new();
    let ghost mut seen: Seq<MenuDietOption> = Seq::empty();
    let mut d: usize = 0;
    proof {
        assert(days@.take(0) =~= Seq::<CalendarDayItems>::empty());
        assert(tally_entries(tally@) =~= tally_of(seen));
    }
    while d < days.len()
        invariant
            d <= days@.len(),
            tally_entries(tally@) == tally_of(seen),
            seen == options_of_days(days@.take(d as int)),
        decreases days@.len() - d,
    {
        let items = &days[d].diet_elements.members;
        let ghost before_day = seen;
        let mut i: usize = 0;
        proof {
            assert(items@.take(0) =~= Seq::<DishItem>::empty());
            assert(seen =~= before_day + options_of_items(items@.take(0)));
        }
        while i < items.len()
            invariant
                i <= items@.len(),
                tally_entries(tally@) == tally_of(seen),
                seen == before_day + options_of_items(items@.take(i as int)),
            decreases items@.len() - i,
        {
            let options = &items[i].options;
            let ghost before_item = seen;
            let mut j: usize = 0;
            proof {
                assert(seen =~= before_item + options@.take(0));
            }
            while j < options.len()
                invariant
                    j <= options@.len(),
                    tally_entries(tally@) == tally_of(seen),
                    seen == before_item + options@.take(j as int),
                decreases options@.len() - j,
            {
                count_option(&mut tally, &options[j]);
                proof {
                    let next = seen.push(options@[j as int]);
                    assert(next.drop_last() =~= seen);
                    assert(next =~= before_item + options@.take(j + 1));
                    seen = next;
                }
                j += 1;
            }
            proof {
                assert(options@.take(j as int) =~= options@);
                let next = items@.take(i + 1);
                assert(next.drop_last() =~= items@.take(i as int));
                assert(next.last() == items@[i as int]);
                assert(seen =~= before_day + options_of_items(next));
            }
            i += 1;
        }
        proof {
            assert(items@.take(i as int) =~= items@);
            let next = days@.take(d + 1);
            assert(next.drop_last() =~= days@.take(d as int));
            assert(next.last() == days@[d as int]);
        }
        d += 1;
    }
    assert(days@.take(d as int) =~= days@);
    tally
}

/// The number of options that hold the dish with the given identifier.
pub open spec fn occurrences(options: Seq<MenuDietOption>, id: Seq<char>) -> nat
    decreases options.len(),
{
    if options.len() == 0 {
        0
    } else {
        occurrences(options.drop_last(), id) + if options.last().dish.id@ == id {
            1nat
        } else {
            0nat
        }
    }
}

/// A number of occurrences as a count holds it: itself, or the most that a
/// `u64` can hold.
pub open spec fn capped(n: nat) -> u64 {
    if n <= u64::MAX {
        n as u64
    } else {
        u64::MAX
    }
}

/// Whether no two entries of the tally are for the same dish.
pub open spec fn distinct_dishes(tally: Seq<(Seq<char>, (Seq<char>, u64))>) -> bool {
    forall|k: int, l: int| 0 <= k < l < tally.len() ==> tally[k].0 != tally[l].0
}

/// The tally of a run of options has one entry for each dish that occurs in
/// it and none for another, and the count of each entry is the number of
/// options that hold its dish.
pub proof fn law_tally_counts_occurrences(options: Seq<MenuDietOption>)
    ensures
        distinct_dishes(tally_of(options)),
        forall|k: int|
            0 <= k < tally_of(options).len() ==> {
                &&& occurrences(options, (#[trigger] tally_of(options)[k]).0) > 0
                &&& tally_of(options)[k].1.1 == capped(occurrences(options, tally_of(options)[k].0))
            },
        forall|id: Seq<char>|
            occurrences(options, id) > 0 ==> key_position(tally_of(options), id) < tally_of(
                options,
            ).len(),
    decreases options.len(),
{
    if options.len() > 0 {
        let front = options.drop_last();
        let last = options.last();
        let id = last.dish.id@;
        law_tally_counts_occurrences(front);
        let before = tally_of(front);
        let after = tally_of(options);
        lemma_key_position(before, id);
        let p = key_position(before, id);
        assert forall|k: int| 0 <= k < after.len() implies {
            &&& occurrences(options, (#[trigger] after[k]).0) > 0
            &&& after[k].1.1 == capped(occurrences(options, after[k].0))
        } by {
            if p < before.len() {
                if k != p {
                    assert(before[k].0 != id) by {
                        if k < p {
                        } else {
                            assert(before[p].0 != before[k].0);
                        }
                    }
                    assert(after[k] == before[k]);
                }
            } else {
                if k < before.len() {
                    assert(after[k] == before[k]);
                } else {
                    assert(occurrences(front, id) == 0) by {
                        if occurrences(front, id) > 0 {
                            assert(key_position(before, id) < before.len());
                        }
                    }
                }
            }
        }
        assert forall|other: Seq<char>| occurrences(options, other) > 0 implies key_position(
            after,
            other,
        ) < after.len() by {
            lemma_key_position(after, other);
            lemma_key_position(before, other);
            let q = key_position(before, other);
            if other == id {
                if p < before.len() {
                    assert(after[p].0 == id);
                } else {
                    assert(after[after.len() - 1].0 == id);
                }
            } else {
                assert(occurrences(front, other) > 0);
                assert(q < before.len());
                assert(after[q].0 == before[q].0);
            }
        }
        assert forall|k: int, l: int| 0 <= k < l < after.len() implies after[k].0 != after[l].0 by {
            if p < before.len() {
                assert(after[k].0 == before[k].0);
                assert(after[l].0 == before[l].0);
            } else {
                if l < before.len() {
                    assert(after[k] == before[k] && after[l] == before[l]);
                } else {
                    assert(after[k] == before[k]);
                    assert(before[k].0 != id);
                }
            }
        }
    }
}

} // verus!
