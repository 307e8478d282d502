//! The menus of the days before the one being decided, oldest first, each
//! under a label such as "yesterday".

use vstd::prelude::*;
use vstd::string::StringExecFns;
use indexmap::IndexMap;
use crate::date::Date;
use crate::date::MIN_DAYS;
use crate::diets::covering_diet;
use crate::diets::DietsList;
use crate::menu::CalendarDayItems;
use crate::text::decimal_nat;
use crate::text::push_decimal_nat;

verus! {

/// How many days back the history reaches.
pub const HISTORY_DAYS: u32 = 7;

#[verifier::external_type_specification]
#[verifier::external_body]
#[verifier::reject_recursive_types(K)]
#[verifier::reject_recursive_types(V)]
#[verifier::reject_recursive_types(S)]
pub struct ExIndexMap<K, V, S>(IndexMap<K, V, S>);

/// What a history holds: its labels with their menus, in the order of the
/// map.
pub uninterp spec fn history_entries(history: IndexMap<String, CalendarDayItems>) -> Seq<
    (Seq<char>, CalendarDayItems),
>;

/// The first place in `entries` with the key `key`, or the length of
/// `entries` if there is none.
pub open spec fn key_position<V>(entries: Seq<(Seq<char>, V)>, key: Seq<char>) -> int
    decreases entries.len(),
{
    if entries.len() == 0 {
        0
    } else if entries[0].0 == key {
        0
    } else {
        1 + key_position(entries.drop_first(), key)
    }
}

/// `key_position` is the first place with the key, and the length exactly
/// when no entry has it.
pub proof fn lemma_key_position<V>(entries: Seq<(Seq<char>, V)>, key: Seq<char>)
    ensures
        0 <= key_position(entries, key) <= entries.len(),
        key_position(entries, key) < entries.len() ==> entries[key_position(entries, key)].0
            == key,
        forall|j: int| 0 <= j < key_position(entries, key) ==> entries[j].0 != key,
    decreases entries.len(),
{
    if entries.len() == 0 {
    } else if entries[0].0 == key {
    } else {
        let rest = entries.drop_first();
        lemma_key_position(rest, key);
        let p = key_position(rest, key);
        assert forall|j: int| 0 <= j < 1 + p implies entries[j].0 != key by {
            if j > 0 {
                assert(rest[j - 1] == entries[j]);
            }
        }
        if p < rest.len() {
            assert(rest[p] == entries[p + 1]);
        }
    }
}

/// The entries after `value` has been put under `key`: in the place of the
/// entry that had the key, or last if none had it.
pub open spec fn put<V>(entries: Seq<(Seq<char>, V)>, key: Seq<char>, value: V) -> Seq<
    (Seq<char>, V),
> {
    let p = key_position(entries, key);
    if 0 <= p < entries.len() {
        entries.update(p, (key, value))
    } else {
        entries.push((key, value))
    }
}

/// A history without entries.
///
/// Trusted: calls `indexmap::IndexMap::new`, which makes an empty map.
#[verifier::external_body]
fn history_new() -> (history: IndexMap<String, CalendarDayItems>)
    ensures
        history_entries(history) == Seq::<(Seq<char>, CalendarDayItems)>::empty(),
{
    IndexMap::new()
}

/// Puts a menu under a label.
///
/// Trusted: calls `indexmap::IndexMap::insert`. Where the map has an equal
/// key the entry keeps its place and gets the new value; otherwise the pair
/// becomes the last entry. The value that was replaced is dropped.
#[verifier::external_body]
fn history_insert(
    history: &mut IndexMap<String, CalendarDayItems>,
    label: String,
    items: CalendarDayItems,
)
    ensures
        history_entries(*final(history)) == put(history_entries(*old(history)), label@, items),
{
    history.insert(label, items);
}

/// The number of entries.
///
/// Trusted: calls `indexmap::IndexMap::len`.
#[verifier::external_body]
pub(crate) fn history_len(history: &IndexMap<String, CalendarDayItems>) -> (n: usize)
    ensures
        n == history_entries(*history).len(),
{
    history.len()
}

/// The entry at place `i`.
///
/// Trusted: calls `indexmap::IndexMap::get_index`, which gives the pair at
/// that place in the map's order for every place below the length.
#[verifier::external_body]
pub(crate) fn history_entry(history: &IndexMap<String, CalendarDayItems>, i: usize) -> (r: (
    &String,
    &CalendarDayItems,
))
    requires
        i < history_entries(*history).len(),
    ensures
        r.0@ == history_entries(*history)[i as int].0,
        *r.1 == history_entries(*history)[i as int].1,
{
    history.get_index(i).unwrap()
}

/// The label of the day `days_ago` days before the one being decided.
pub open spec fn history_label(days_ago: nat) -> Seq<char> {
    if days_ago == 1 {
        seq!['y', 'e', 's', 't', 'e', 'r', 'd', 'a', 'y']
    } else {
        decimal_nat(days_ago) + seq![' ', 'd', 'a', 'y', 's', ' ', 'a', 'g', 'o']
    }
}

/// The label of the day `days_ago` days before the one being decided.
pub fn day_label(days_ago: u32) -> (label: String)
    ensures
        label@ == history_label(days_ago as nat),
{
    proof {
        reveal_strlit("yesterday");
        reveal_strlit(" days ago");
    }
    if days_ago == 1 {
        let label = String::from_str("yesterday");
        assert(label@ =~= history_label(1));
        label
    } else {
        let mut label = String::new();
        push_decimal_nat(&mut label, days_ago as u64);
        label.append(" days ago");
        assert(label@ =~= history_label(days_ago as nat));
        label
    }
}

/// A history without entries.
pub fn empty_history() -> (history: IndexMap<String, CalendarDayItems>)
    ensures
        history_entries(history) == Seq::<(Seq<char>, CalendarDayItems)>::empty(),
{
    history_new()
}

/// Puts the menu of the day `days_ago` days back into the history, under
/// that day's label.
pub fn record_history_day(
    history: &mut IndexMap<String, CalendarDayItems>,
    days_ago: u32,
    items: CalendarDayItems,
)
    ensures
        history_entries(*final(history)) == put(
            history_entries(*old(history)),
            history_label(days_ago as nat),
            items,
        ),
{
    history_insert(history, day_label(days_ago), items);
}

/// One day of the history that is to be gathered: how many days back it
/// lies, its date, and the diet that delivers on it, if any.
#[derive(Debug)]
pub struct HistoryDay {
    pub days_ago: u32,
    pub date: Date,
    pub diet_id: Option<i64>,
}

/// The identifier of the first diet of `diets` that delivers on `date`.
pub open spec fn covering_diet_id(diets: DietsList, date: Date) -> Option<i64> {
    match covering_diet(diets.members@, date) {
        Some(diet) => Some(diet.id),
        None => None,
    }
}

/// The days whose menus make up the history of `date`: the `days` days
/// before it, oldest first, each with the diet to ask for its menu. `None`
/// where one of them is a day that a `Date` cannot hold.
pub fn fetch_historical_orders(diets: &DietsList, date: &Date, days: u32) -> (r: Option<
    Vec<HistoryDay>,
>)
    ensures
        r is Some <==> date.ord() - days >= MIN_DAYS,
        r matches Some(plan) ==> {
            &&& plan@.len() == days
            &&& forall|k: int|
                0 <= k < days ==> {
                    &&& (#[trigger] plan@[k]).days_ago == days - k
                    &&& plan@[k].date.ord() == date.ord() - (days - k)
                    &&& plan@[k].diet_id == covering_diet_id(*diets, plan@[k].date)
                }
        },
{
    if date.minus_days(days).is_none() {
        return None;
    }
    let mut plan: Vec<HistoryDay> = Vec::new();
    let mut day = days;
    while day > 0
        invariant
            day <= days,
            date.ord() - days >= MIN_DAYS,
            plan@.len() == days - day,
            forall|k: int|
                0 <= k < days - day ==> {
                    &&& (#[trigger] plan@[k]).days_ago == days - k
                    &&& plan@[k].date.ord() == date.ord() - (days - k)
                    &&& plan@[k].diet_id == covering_diet_id(*diets, plan@[k].date)
                },
        decreases day,
    {
        let past = match date.minus_days(day) {
            Some(past) => past,
            None => {
                return None;
            },
        };
        let diet_id = match diets.diet_for_date(&past) {
            Some(diet) => Some(diet.id),
            None => None,
        };
        plan.push(HistoryDay { days_ago: day, date: past, diet_id });
        day -= 1;
    }
    Some(plan)
}

} // verus!
