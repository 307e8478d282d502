//! The decisions of one day: what the user is asked, and which adjustments
//! and menu changes follow from the answers.

use vstd::prelude::*;
use vstd::string::StringExecFns;
use crate::ai::find_selection;
use crate::ai::item_fault;
use crate::ai::selection_place;
use crate::ai::AiResponse;
use crate::ai::OracleError;
use crate::ai::ResponseItem;
use crate::ai::UserAdjustment;
use crate::date::Date;
use crate::date::iso_date_text;
use crate::date::weekday_index;
use crate::date::weekday_name;
use crate::date::MAX_DAYS;
use crate::diets::DietsList;
use crate::history::covering_diet_id;
use crate::menu::dish_position;
use crate::menu::has_dish;
use crate::menu::item_position;
use crate::menu::lemma_dish_position;
use crate::menu::lemma_item_position;
use crate::menu::referents;
use crate::menu::MenuDietOption;
use crate::preferences::most_recent;
use crate::preferences::Preferences;
use crate::preferences::MAX_ADJUSTMENTS;
use crate::menu::CalendarDayItems;
use crate::menu::ChangeMenuItem;
use crate::menu::ChangeMenuRequest;
use crate::menu::DishItem;

verus! {

/// What the user answered for one meal slot: the place of the option taken,
/// among the options on offer, and the reason given for it, which may be
/// empty.
#[derive(Debug)]
pub struct UserChoice {
    pub selection: usize,
    pub explanation: String,
}

/// What follows from the user's answer for one meal slot.
#[derive(Debug)]
pub struct Decision {
    pub adjustment: Option<UserAdjustment>,
    pub change: Option<ChangeMenuItem>,
}

/// Why the work on a day stopped.
#[derive(Debug, Clone, Copy, PartialEq, Eq, Structural)]
pub enum WorkflowError {
    /// The oracle's answer cannot be used.
    Oracle(OracleError),
    /// There is no answer of the user for the meal slot at this place.
    MissingChoice { dish_item: usize },
    /// The user's answer for the meal slot at this place is no place among
    /// the options on offer.
    ChoiceOutOfRange { dish_item: usize },
    /// No diet delivers on the day.
    NoDietForDate,
    /// The change at this place names a meal slot that the day does not have.
    DishItemNotFound { change: usize },
    /// The change at this place names a dish that its meal slot does not have.
    DishNotFound { change: usize },
    /// The meal slot of the change at this place is set to no option.
    NoSelectedOption { change: usize },
    /// The day after the one decided is a day that a `Date` cannot hold.
    DateOutOfRange,
}

/// The place, among the options on offer, of the option that the oracle
/// recommends for `item`.
pub open spec fn oracle_place(item: DishItem, selections: Seq<(String, ResponseItem)>) -> Option<
    int,
> {
    match selection_place(selections, item.id@) {
        Some(p) => item.offered_place(selections[p].1.dish_id@),
        None => None,
    }
}

/// The place, among the options on offer, of the option that `item` is
/// currently set to; `None` where it is set to none that is on offer.
pub open spec fn current_place(item: DishItem) -> Option<int> {
    item.offered_place(item.marked_dish())
}

/// The reason that is recorded for an explanation: none for an empty one.
pub open spec fn reason_of(explanation: String) -> Option<String> {
    if explanation@.len() == 0 {
        None
    } else {
        Some(explanation)
    }
}

/// The adjustment that is recorded for one meal slot: one from the oracle's
/// option to the user's, where the two differ.
pub open spec fn adjustment_for(item: DishItem, oracle: int, choice: UserChoice, date: Date) -> Option<
    UserAdjustment,
> {
    if choice.selection != oracle {
        Some(
            UserAdjustment {
                from: item.offered()[oracle].name,
                to: item.offered()[choice.selection as int].name,
                reason: reason_of(choice.explanation),
                date,
            },
        )
    } else {
        None
    }
}

/// The menu change that is recorded for one meal slot: one to the user's
/// option, where that is not the option the slot is currently set to.
pub open spec fn change_for(item: DishItem, choice: UserChoice) -> Option<ChangeMenuItem> {
    if current_place(item) != Some(choice.selection as int) {
        Some(
            ChangeMenuItem {
                dish: item.offered()[choice.selection as int].dish.id,
                dish_item: item.id,
            },
        )
    } else {
        None
    }
}

/// What follows from the user's answer for one meal slot, given the place of
/// the option that the oracle recommends. `None` where one of the two places
/// is no place among the options on offer.
pub fn decide(item: &DishItem, date: Date, oracle: usize, choice: &UserChoice) -> (r: Option<
    Decision,
>)
    ensures
        r is Some <==> oracle < item.offered().len() && choice.selection < item.offered().len(),
        r matches Some(decision) ==> {
            &&& decision.adjustment == adjustment_for(*item, oracle as int, *choice, date)
            &&& decision.change == change_for(*item, *choice)
        },
{
    let offered = item.options();
    assert(offered@.len() == item.offered().len());
    if oracle >= offered.len() || choice.selection >= offered.len() {
        return None;
    }
    let selection = choice.selection;
    assert(referents(offered@)[oracle as int] == *offered@[oracle as int]);
    assert(referents(offered@)[selection as int] == *offered@[selection as int]);
    let adjustment = if selection != oracle {
        let reason = if choice.explanation.as_str().is_empty() {
            None
        } else {
            Some(choice.explanation.clone())
        };
        Some(
            UserAdjustment {
                from: offered[oracle].name.clone(),
                to: offered[selection].name.clone(),
                reason,
                date,
            },
        )
    } else {
        None
    };
    let marked: &str = match item.get_selected_option() {
        Some(option) => option.dish.id.as_str(),
        None => "",
    };
    assert(marked@ == item.marked_dish()) by {
        reveal_strlit("");
        crate::menu::lemma_dish_position(item.options@, item.default_dish());
    }
    let current = item.offered_position(marked);
    let unchanged = match current {
        Some(place) => place == selection,
        None => false,
    };
    let change = if unchanged {
        None
    } else {
        Some(ChangeMenuItem { dish: offered[selection].dish.id.clone(), dish_item: item.id.clone() })
    };
    Some(Decision { adjustment, change })
}

/// What stops the work at the meal slot `item`, at place `i` of the day:
/// something wrong with the oracle's answers for it, no answer of the user
/// for it, or one that is no place among its options on offer.
pub open spec fn step_fault(
    item: DishItem,
    selections: Seq<(String, ResponseItem)>,
    choices: Seq<UserChoice>,
    i: int,
) -> Option<WorkflowError> {
    match item_fault(item, selections, i) {
        Some(e) => Some(WorkflowError::Oracle(e)),
        None => if i >= choices.len() {
            Some(WorkflowError::MissingChoice { dish_item: i as usize })
        } else if choices[i].selection >= item.offered().len() {
            Some(WorkflowError::ChoiceOutOfRange { dish_item: i as usize })
        } else {
            None
        },
    }
}

/// Whether `i` is the first place in `items` at which the work stops.
pub open spec fn is_first_stop(
    items: Seq<DishItem>,
    selections: Seq<(String, ResponseItem)>,
    choices: Seq<UserChoice>,
    i: int,
) -> bool {
    &&& 0 <= i < items.len()
    &&& step_fault(items[i], selections, choices, i) is Some
    &&& forall|j: int| 0 <= j < i ==> step_fault(#[trigger] items[j], selections, choices, j) is None
}

/// Whether the work stops at no meal slot.
pub open spec fn all_decided(
    items: Seq<DishItem>,
    selections: Seq<(String, ResponseItem)>,
    choices: Seq<UserChoice>,
) -> bool {
    forall|i: int|
        0 <= i < items.len() ==> step_fault(#[trigger] items[i], selections, choices, i) is None
}

/// The adjustments recorded for the first `n` meal slots, in their order.
pub open spec fn adjustments_upto(
    items: Seq<DishItem>,
    selections: Seq<(String, ResponseItem)>,
    choices: Seq<UserChoice>,
    date: Date,
    n: int,
) -> Seq<UserAdjustment>
    decreases n,
{
    if n <= 0 {
        Seq::empty()
    } else {
        adjustments_upto(items, selections, choices, date, n - 1) + match adjustment_for(
            items[n - 1],
            oracle_place(items[n - 1], selections).unwrap(),
            choices[n - 1],
            date,
        ) {
            Some(adjustment) => seq![adjustment],
            None => Seq::empty(),
        }
    }
}

/// The menu changes recorded for the first `n` meal slots, in their order.
pub open spec fn changes_upto(items: Seq<DishItem>, choices: Seq<UserChoice>, n: int) -> Seq<
    ChangeMenuItem,
>
    decreases n,
{
    if n <= 0 {
        Seq::empty()
    } else {
        changes_upto(items, choices, n - 1) + match change_for(items[n - 1], choices[n - 1]) {
            Some(change) => seq![change],
            None => Seq::empty(),
        }
    }
}

/// Goes through the meal slots of the day in their order, with the oracle's
/// answers and the user's, one for each slot. It hands back the adjustments
/// and appends the menu changes to `menu_changes`; where the work stops at a
/// slot, it says why and leaves `menu_changes` as it was.
pub fn select_dishes(
    calendar_day_items: &CalendarDayItems,
    date: &Date,
    ai_result: &AiResponse,
    choices: &Vec<UserChoice>,
    menu_changes: &mut ChangeMenuRequest,
) -> (r: Result<Vec<UserAdjustment>, WorkflowError>)
    ensures
        r is Ok <==> all_decided(calendar_day_items.items(), ai_result.selections@, choices@),
        r matches Ok(adjustments) ==> {
            &&& adjustments@ == adjustments_upto(
                calendar_day_items.items(),
                ai_result.selections@,
                choices@,
                *date,
                calendar_day_items.items().len() as int,
            )
            &&& final(menu_changes).items@ == old(menu_changes).items@ + changes_upto(
                calendar_day_items.items(),
                choices@,
                calendar_day_items.items().len() as int,
            )
        },
        r matches Err(e) ==> {
            &&& final(menu_changes).items@ == old(menu_changes).items@
            &&& exists|i: int|
                #![trigger is_first_stop(calendar_day_items.items(), ai_result.selections@, choices@, i)]
                is_first_stop(calendar_day_items.items(), ai_result.selections@, choices@, i)
                    && Some(e) == step_fault(
                    calendar_day_items.items()[i],
                    ai_result.selections@,
                    choices@,
                    i,
                )
        },
{
    let items = &calendar_day_items.diet_elements.members;
    let ghost selections = ai_result.selections@;
    let mut adjustments: Vec<UserAdjustment> = Vec::new();
    let mut changes: Vec<ChangeMenuItem> = Vec::new();
    let mut i: usize = 0;
    while i < items.len()
        invariant
            i <= items@.len(),
            items@ == calendar_day_items.items(),
            selections == ai_result.selections@,
            menu_changes.items@ == old(menu_changes).items@,
            forall|j: int|
                0 <= j < i ==> step_fault(#[trigger] items@[j], selections, choices@, j) is None,
            adjustments@ == adjustments_upto(items@, selections, choices@, *date, i as int),
            changes@ == changes_upto(items@, choices@, i as int),
        decreases items@.len() - i,
    {
        let item = &items[i];
        let oracle = match find_selection(&ai_result.selections, item.id.as_str()) {
            None => {
                let e = WorkflowError::Oracle(OracleError::MissingSelection { dish_item: i });
                assert(Some(e) == step_fault(items@[i as int], selections, choices@, i as int));
                assert(is_first_stop(items@, selections, choices@, i as int));
                return Err(e);
            },
            Some(p) => match item.offered_position(ai_result.selections[p].1.dish_id.as_str()) {
                None => {
                    let e = WorkflowError::Oracle(OracleError::DishNotOffered { dish_item: i });
                    assert(Some(e) == step_fault(items@[i as int], selections, choices@, i as int));
                    assert(is_first_stop(items@, selections, choices@, i as int));
                    return Err(e);
                },
                Some(place) => place,
            },
        };
        assert(oracle_place(*item, selections) == Some(oracle as int));
        if i >= choices.len() {
            let e = WorkflowError::MissingChoice { dish_item: i };
            assert(Some(e) == step_fault(items@[i as int], selections, choices@, i as int));
            assert(is_first_stop(items@, selections, choices@, i as int));
            return Err(e);
        }
        let decision = match decide(item, *date, oracle, &choices[i]) {
            None => {
                let e = WorkflowError::ChoiceOutOfRange { dish_item: i };
                assert(Some(e) == step_fault(items@[i as int], selections, choices@, i as int));
                assert(is_first_stop(items@, selections, choices@, i as int));
                return Err(e);
            },
            Some(decision) => decision,
        };
        assert(step_fault(items@[i as int], selections, choices@, i as int) is None);
        match decision.adjustment {
            Some(adjustment) => {
                adjustments.push(adjustment);
            },
            None => {},
        }
        match decision.change {
            Some(change) => {
                changes.push(change);
            },
            None => {},
        }
        i += 1;
        assert(adjustments@ =~= adjustments_upto(items@, selections, choices@, *date, i as int));
        assert(changes@ =~= changes_upto(items@, choices@, i as int));
    }
    menu_changes.items.append(&mut changes);
    Ok(adjustments)
}

/// What is shown to the user for one meal slot before the choice is made:
/// the oracle's word on each dish, its reason, and the options on offer with
/// the place of the one it recommends.
#[derive(Debug)]
pub struct DishPrompt {
    pub meal_type: String,
    pub analysis: Vec<(String, String)>,
    pub reason: String,
    pub options: Vec<String>,
    pub default: usize,
}

/// The name shown for a dish that the meal slot does not have.
pub const UNKNOWN_DISH: &'static str = "unknown";

/// The name shown for the dish with the given identifier: that of the first
/// option of `item` with that dish, on offer or not.
pub open spec fn shown_name(item: DishItem, dish_id: Seq<char>) -> Seq<char> {
    if has_dish(item.options@, dish_id) {
        item.options@[dish_position(item.options@, dish_id)].name@
    } else {
        UNKNOWN_DISH@
    }
}

/// The oracle's word on each dish, with the dish's name in place of its
/// identifier.
pub open spec fn analysis_lines(item: DishItem, analysis: Seq<(String, String)>) -> Seq<
    (Seq<char>, Seq<char>),
> {
    analysis.map_values(|line: (String, String)| (shown_name(item, line.0@), line.1@))
}

/// The names of the options, in order.
pub open spec fn option_names(options: Seq<MenuDietOption>) -> Seq<Seq<char>> {
    options.map_values(|o: MenuDietOption| o.name@)
}

/// What is shown to the user for the meal slot `item`, which stands at place
/// `place` of the day; or what is wrong with the oracle's answers for it.
pub fn prompt_for(item: &DishItem, place: usize, ai_result: &AiResponse) -> (r: Result<
    DishPrompt,
    OracleError,
>)
    ensures
        match r {
            Ok(prompt) => {
                &&& item_fault(*item, ai_result.selections@, place as int) is None
                &&& Some(prompt.default as int) == oracle_place(*item, ai_result.selections@)
                &&& prompt.meal_type@ == item.meal_type.name@
                &&& prompt.options.deep_view() == option_names(item.offered())
                &&& ({
                    let answer = ai_result.selections@[selection_place(
                        ai_result.selections@,
                        item.id@,
                    ).unwrap()].1;
                    &&& prompt.reason@ == answer.reason@
                    &&& prompt.analysis.deep_view() == analysis_lines(*item, answer.analysis@)
                })
            },
            Err(e) => Some(e) == item_fault(*item, ai_result.selections@, place as int),
        },
{
    let p = match find_selection(&ai_result.selections, item.id.as_str()) {
        Some(p) => p,
        None => {
            return Err(OracleError::MissingSelection { dish_item: place });
        },
    };
    let answer = &ai_result.selections[p].1;
    let default = match item.offered_position(answer.dish_id.as_str()) {
        Some(default) => default,
        None => {
            return Err(OracleError::DishNotOffered { dish_item: place });
        },
    };
    let mut analysis: Vec<(String, String)> = Vec::new();
    let mut i: usize = 0;
    while i < answer.analysis.len()
        invariant
            i <= answer.analysis@.len(),
            analysis@.len() == i,
            forall|k: int|
                0 <= k < i ==> (#[trigger] analysis@[k]).0@ == shown_name(
                    *item,
                    answer.analysis@[k].0@,
                ) && analysis@[k].1@ == answer.analysis@[k].1@,
        decreases answer.analysis@.len() - i,
    {
        let line = &answer.analysis[i];
        let name = match item.get_dish(line.0.as_str()) {
            Some(option) => option.name.clone(),
            None => String::from_str(UNKNOWN_DISH),
        };
        analysis.push((name, line.1.clone()));
        i += 1;
    }
    let offered = item.options();
    let mut options: Vec<String> = Vec::new();
    let mut j: usize = 0;
    while j < offered.len()
        invariant
            j <= offered@.len(),
            referents(offered@) == item.offered(),
            options@.len() == j,
            forall|k: int| 0 <= k < j ==> (#[trigger] options@[k])@ == item.offered()[k].name@,
        decreases offered@.len() - j,
    {
        assert(referents(offered@)[j as int] == *offered@[j as int]);
        options.push(offered[j].name.clone());
        j += 1;
    }
    proof {
        assert(offered@.len() == item.offered().len());
        assert(options.deep_view() =~= option_names(item.offered()));
        assert(analysis.deep_view() =~= analysis_lines(*item, answer.analysis@));
    }
    Ok(
        DishPrompt {
            meal_type: item.meal_type.name.clone(),
            analysis,
            reason: answer.reason.clone(),
            options,
            default,
        },
    )
}

/// One line of the list of menu changes that the user is asked to confirm:
/// the meal slot, the dish it is set to, and the dish it would be set to.
#[derive(Debug)]
pub struct ChangeLine {
    pub meal_type: String,
    pub current_name: String,
    pub new_name: String,
}

/// What stops the listing at the change `change`, at place `k` of the
/// changes: the day has no such meal slot, the slot is set to no option, or
/// the slot has no such dish.
pub open spec fn line_fault(items: Seq<DishItem>, change: ChangeMenuItem, k: int) -> Option<
    WorkflowError,
> {
    let p = item_position(items, change.dish_item@);
    if p >= items.len() {
        Some(WorkflowError::DishItemNotFound { change: k as usize })
    } else if items[p].selected_position() is None {
        Some(WorkflowError::NoSelectedOption { change: k as usize })
    } else if !has_dish(items[p].options@, change.dish@) {
        Some(WorkflowError::DishNotFound { change: k as usize })
    } else {
        None
    }
}

/// The line for one change: the label of its meal slot, the name of the
/// option the slot is set to, and the name of the first option with the
/// dish of the change.
pub open spec fn line_of(items: Seq<DishItem>, change: ChangeMenuItem) -> ChangeLine {
    let item = items[item_position(items, change.dish_item@)];
    ChangeLine {
        meal_type: item.meal_type.name,
        current_name: item.options@[item.selected_position().unwrap()].name,
        new_name: item.options@[dish_position(item.options@, change.dish@)].name,
    }
}

/// Whether `k` is the first place in `changes` at which the listing stops.
pub open spec fn is_first_line_fault(items: Seq<DishItem>, changes: Seq<ChangeMenuItem>, k: int) -> bool {
    &&& 0 <= k < changes.len()
    &&& line_fault(items, changes[k], k) is Some
    &&& forall|j: int| 0 <= j < k ==> line_fault(items, #[trigger] changes[j], j) is None
}

/// The lines that the user is asked to confirm before the changes of the
/// day are sent, one for each change, in order; or why there is none for
/// one of the changes.
pub fn confirm_menu_change(menu_changes: &ChangeMenuRequest, calendar_day_items: &CalendarDayItems) -> (r:
    Result<Vec<ChangeLine>, WorkflowError>)
    ensures
        match r {
            Ok(lines) => {
                &&& lines@.len() == menu_changes.items@.len()
                &&& forall|k: int|
                    0 <= k < lines@.len() ==> {
                        &&& line_fault(
                            calendar_day_items.items(),
                            #[trigger] menu_changes.items@[k],
                            k,
                        ) is None
                        &&& lines@[k] == line_of(
                            calendar_day_items.items(),
                            menu_changes.items@[k],
                        )
                    }
            },
            Err(e) => exists|k: int|
                #![trigger is_first_line_fault(calendar_day_items.items(), menu_changes.items@, k)]
                is_first_line_fault(calendar_day_items.items(), menu_changes.items@, k) && Some(e)
                    == line_fault(calendar_day_items.items(), menu_changes.items@[k], k),
        },
{
    let ghost items = calendar_day_items.items();
    let mut lines: Vec<ChangeLine> = Vec::new();
    let mut k: usize = 0;
    while k < menu_changes.items.len()
        invariant
            k <= menu_changes.items@.len(),
            items == calendar_day_items.items(),
            lines@.len() == k,
            forall|j: int|
                0 <= j < k ==> {
                    &&& line_fault(items, #[trigger] menu_changes.items@[j], j) is None
                    &&& lines@[j] == line_of(items, menu_changes.items@[j])
                },
        decreases menu_changes.items@.len() - k,
    {
        let change = &menu_changes.items[k];
        proof {
            lemma_item_position(items, change.dish_item@);
        }
        let dish_item = match calendar_day_items.get_dish_item(change.dish_item.as_str()) {
            Some(dish_item) => dish_item,
            None => {
                let e = WorkflowError::DishItemNotFound { change: k };
                assert(Some(e) == line_fault(items, menu_changes.items@[k as int], k as int));
                assert(is_first_line_fault(items, menu_changes.items@, k as int));
                return Err(e);
            },
        };
        let current = match dish_item.get_selected_option() {
            Some(current) => current,
            None => {
                let e = WorkflowError::NoSelectedOption { change: k };
                assert(Some(e) == line_fault(items, menu_changes.items@[k as int], k as int));
                assert(is_first_line_fault(items, menu_changes.items@, k as int));
                return Err(e);
            },
        };
        let new = match dish_item.get_dish(change.dish.as_str()) {
            Some(new) => new,
            None => {
                let e = WorkflowError::DishNotFound { change: k };
                assert(Some(e) == line_fault(items, menu_changes.items@[k as int], k as int));
                assert(is_first_line_fault(items, menu_changes.items@, k as int));
                return Err(e);
            },
        };
        lines.push(
            ChangeLine {
                meal_type: dish_item.meal_type.name.clone(),
                current_name: current.name.clone(),
                new_name: new.name.clone(),
            },
        );
        k += 1;
    }
    Ok(lines)
}

/// Takes the new adjustments into the stored record where the user has
/// confirmed them, and leaves the record as it is where not.
pub fn confirm_preferences_save(
    preferences: &mut Preferences,
    new_preferences: Vec<UserAdjustment>,
    confirmed: bool,
)
    ensures
        final(preferences).adjustments() == if confirmed {
            most_recent(
                old(preferences).adjustments() + new_preferences@,
                MAX_ADJUSTMENTS as int,
            )
        } else {
            old(preferences).adjustments()
        },
        final(preferences).next_day() == old(preferences).next_day(),
        final(preferences).stored_token() == old(preferences).stored_token(),
{
    if confirmed {
        preferences.add_new_preferences(new_preferences);
    }
}

/// One step of the closing of a day.
#[derive(Debug, Clone, Copy, PartialEq, Eq, Structural)]
pub enum ClosingStep {
    /// Show the new adjustments and ask whether to keep them.
    ConfirmAdjustments,
    /// Show the menu changes and ask whether to send them.
    ConfirmChanges,
    /// Store the day after as the day to look at next.
    Advance,
}

/// The steps that close a day, in order: the adjustments are asked about
/// where there are any, then the menu changes where there are any, and the
/// day to look at next moves on whatever the answers are.
pub open spec fn closing_of(adjustments: int, changes: int) -> Seq<ClosingStep> {
    (if adjustments > 0 {
        seq![ClosingStep::ConfirmAdjustments]
    } else {
        Seq::empty()
    }) + (if changes > 0 {
        seq![ClosingStep::ConfirmChanges]
    } else {
        Seq::empty()
    }) + seq![ClosingStep::Advance]
}

/// The steps that close a day on which the given adjustments and menu
/// changes were recorded.
pub fn closing_steps(new_preferences: &Vec<UserAdjustment>, menu_changes: &ChangeMenuRequest) -> (r:
    Vec<ClosingStep>)
    ensures
        r@ == closing_of(new_preferences@.len() as int, menu_changes.items@.len() as int),
{
    let mut steps: Vec<ClosingStep> = Vec::new();
    if new_preferences.len() > 0 {
        steps.push(ClosingStep::ConfirmAdjustments);
    }
    if menu_changes.items.len() > 0 {
        steps.push(ClosingStep::ConfirmChanges);
    }
    steps.push(ClosingStep::Advance);
    assert(steps@ =~= closing_of(new_preferences@.len() as int, menu_changes.items@.len() as int));
    steps
}

/// Stores the day after `date` as the day to look at next. It fails, and
/// leaves the record as it is, where a `Date` cannot hold that day.
pub fn finish_day(preferences: &mut Preferences, date: &Date) -> (r: Result<(), WorkflowError>)
    ensures
        r is Ok <==> date.ord() < MAX_DAYS,
        r is Ok ==> final(preferences).next_day() is Some && final(preferences).next_day().unwrap().ord() == date.ord() + 1,
        r is Err ==> r == Err::<(), WorkflowError>(WorkflowError::DateOutOfRange) && final(preferences).next_day() == old(preferences).next_day(),
        final(preferences).adjustments() == old(preferences).adjustments(),
        final(preferences).stored_token() == old(preferences).stored_token(),
{
    match date.next_day() {
        Some(next) => {
            preferences.set_next_day_to_check(next);
            Ok(())
        },
        None => Err(WorkflowError::DateOutOfRange),
    }
}

/// The diet to ask for the menu of `date`: the first that delivers on it.
pub fn diet_of_day(diets: &DietsList, date: &Date) -> (r: Result<i64, WorkflowError>)
    ensures
        match r {
            Ok(id) => Some(id) == covering_diet_id(*diets, *date),
            Err(e) => e == WorkflowError::NoDietForDate && covering_diet_id(*diets, *date) is None,
        },
{
    match diets.diet_for_date(date) {
        Some(diet) => Ok(diet.id),
        None => Err(WorkflowError::NoDietForDate),
    }
}

/// The heading under which a day is shown: its date, a comma, its weekday.
pub open spec fn heading_of(date: Date) -> Seq<char> {
    iso_date_text(date.ord()) + seq![',', ' '] + weekday_name(weekday_index(date.ord()))
}

/// The heading under which a day is shown.
pub fn day_heading(date: &Date) -> (r: String)
    ensures
        r@ == heading_of(*date),
{
    proof {
        reveal_strlit(", ");
    }
    let mut heading = date.iso_text();
    heading.append(", ");
    heading.append(date.weekday_text().as_str());
    assert(heading@ =~= heading_of(*date));
    heading
}

/// Where the user takes the option that the oracle recommends, and the meal
/// slot is not set to it, a menu change to that option is recorded and no
/// adjustment.
pub proof fn law_accepting_the_oracle(item: DishItem, oracle: int, choice: UserChoice, date: Date)
    requires
        choice.selection == oracle,
        current_place(item) != Some(oracle),
    ensures
        adjustment_for(item, oracle, choice, date) is None,
        change_for(item, choice) == Some(
            ChangeMenuItem { dish: item.offered()[oracle].dish.id, dish_item: item.id },
        ),
{
}

/// Where the user takes another option than the oracle recommends, and the
/// meal slot is not set to it either, both are recorded: an adjustment from
/// the oracle's option to the user's, and a menu change to the user's.
pub proof fn law_overriding_the_oracle(item: DishItem, oracle: int, choice: UserChoice, date: Date)
    requires
        choice.selection != oracle,
        current_place(item) != Some(choice.selection as int),
    ensures
        adjustment_for(item, oracle, choice, date) == Some(
            UserAdjustment {
                from: item.offered()[oracle].name,
                to: item.offered()[choice.selection as int].name,
                reason: reason_of(choice.explanation),
                date,
            },
        ),
        change_for(item, choice) == Some(
            ChangeMenuItem {
                dish: item.offered()[choice.selection as int].dish.id,
                dish_item: item.id,
            },
        ),
{
}

/// Where the user takes the option that the meal slot is set to, against the
/// oracle, an adjustment from the oracle's option to it is recorded and no
/// menu change.
pub proof fn law_keeping_the_current(item: DishItem, oracle: int, choice: UserChoice, date: Date)
    requires
        choice.selection != oracle,
        current_place(item) == Some(choice.selection as int),
    ensures
        adjustment_for(item, oracle, choice, date) == Some(
            UserAdjustment {
                from: item.offered()[oracle].name,
                to: item.offered()[choice.selection as int].name,
                reason: reason_of(choice.explanation),
                date,
            },
        ),
        change_for(item, choice) is None,
{
}

} // verus!
