//! What is asked of the recommendation oracle for one day, and what is
//! accepted of its answer.

use vstd::prelude::*;
use indexmap::IndexMap;
use crate::date::Date;
use crate::history::history_entries;
use crate::history::history_entry;
use crate::history::history_len;
use crate::history::key_position;
use crate::history::lemma_key_position;
use crate::history::put;
use crate::text::same_text;
use vstd::string::StringExecFns;
use crate::menu::enabled_options;
use crate::menu::CalendarDayItems;
use crate::menu::DishItem;
use crate::menu::MenuDietOption;

verus! {

/// A record of the user overriding the oracle: the dish it recommended, the
/// dish the user took, the reason given, and the day of the menu.
#[derive(Debug)]
pub struct UserAdjustment {
    pub from: String,
    pub to: String,
    pub reason: Option<String>,
    pub date: Date,
}

/// One option as the oracle sees it.
#[derive(Debug)]
pub struct AiMenuDietOption {
    pub name: String,
    pub ingredients: Vec<String>,
    pub id: String,
}

/// One meal slot as the oracle sees it: only the options on offer.
#[derive(Debug)]
pub struct AiDishItem {
    pub id: String,
    pub meal_type: String,
    pub options: Vec<AiMenuDietOption>,
}

/// The question put to the oracle for one day.
#[derive(Debug)]
pub struct SelectDishQuestion {
    pub user_changes: Vec<UserAdjustment>,
    pub last_days_choices: IndexMap<String, Vec<AiMenuDietOption>>,
    pub dish_items: Vec<AiDishItem>,
    pub menu_date: Date,
}

/// The oracle's answer for one meal slot: the dish it chose, why, and what
/// it says of each option, by dish identifier.
#[derive(Debug)]
pub struct ResponseItem {
    pub dish_id: String,
    pub reason: String,
    pub analysis: Vec<(String, String)>,
}

/// The oracle's answer for one day: its reasoning and one answer for each
/// meal slot, by the slot's identifier.
#[derive(Debug)]
pub struct AiResponse {
    pub reasoning: Vec<String>,
    pub selections: Vec<(String, ResponseItem)>,
}

/// The content of an `AiMenuDietOption`.
#[verifier::ext_equal]
pub struct AiOptionModel {
    pub name: Seq<char>,
    pub ingredients: Seq<Seq<char>>,
    pub id: Seq<char>,
}

/// The content of an `AiDishItem`.
#[verifier::ext_equal]
pub struct AiItemModel {
    pub id: Seq<char>,
    pub meal_type: Seq<char>,
    pub options: Seq<AiOptionModel>,
}

impl DeepView for AiMenuDietOption {
    type V = AiOptionModel;

    open spec fn deep_view(&self) -> AiOptionModel {
        AiOptionModel {
            name: self.name@,
            ingredients: self.ingredients.deep_view(),
            id: self.id@,
        }
    }
}

impl DeepView for AiDishItem {
    type V = AiItemModel;

    open spec fn deep_view(&self) -> AiItemModel {
        AiItemModel {
            id: self.id@,
            meal_type: self.meal_type@,
            options: self.options.deep_view(),
        }
    }
}

/// What the oracle is told of one option: its name, its ingredients (none
/// where they are not known) and its dish.
pub open spec fn ai_option_of(option: MenuDietOption) -> AiOptionModel {
    AiOptionModel {
        name: option.name@,
        ingredients: match option.ingredients {
            Some(known) => known.ingredients.deep_view(),
            None => Seq::empty(),
        },
        id: option.dish.id@,
    }
}

/// What the oracle is told of a list of options: those on offer, in order.
pub open spec fn ai_options_of(options: Seq<MenuDietOption>) -> Seq<AiOptionModel> {
    enabled_options(options).map_values(|o: MenuDietOption| ai_option_of(o))
}

/// What the oracle is told of one meal slot.
pub open spec fn ai_item_of(item: DishItem) -> AiItemModel {
    AiItemModel {
        id: item.id@,
        meal_type: item.meal_type.name@,
        options: ai_options_of(item.options@),
    }
}

/// What the oracle is told of the meal slots of a day.
pub open spec fn ai_items_of(items: Seq<DishItem>) -> Seq<AiItemModel> {
    items.map_values(|item: DishItem| ai_item_of(item))
}

/// Copies a list of texts.
fn copy_texts(texts: &Vec<String>) -> (r: Vec<String>)
    ensures
        r.deep_view() == texts.deep_view(),
{
    let mut out: Vec<String> = Vec::new();
    let mut i: usize = 0;
    while i < texts.len()
        invariant
            i <= texts@.len(),
            out@.len() == i,
            forall|k: int| 0 <= k < i ==> out@[k]@ == texts@[k]@,
        decreases texts@.len() - i,
    {
        out.push(texts[i].clone());
        i += 1;
    }
    assert(out.deep_view() =~= texts.deep_view());
    out
}

/// The option as the oracle sees it.
pub fn ai_option(option: &MenuDietOption) -> (r: AiMenuDietOption)
    ensures
        r.deep_view() == ai_option_of(*option),
{
    let ingredients = match &option.ingredients {
        Some(known) => copy_texts(&known.ingredients),
        None => Vec::new(),
    };
    assert(option.ingredients is None ==> ingredients.deep_view() =~= Seq::<Seq<char>>::empty());
    AiMenuDietOption { name: option.name.clone(), ingredients, id: option.dish.id.clone() }
}

/// The meal slot as the oracle sees it.
pub fn ai_dish_item(item: &DishItem) -> (r: AiDishItem)
    ensures
        r.deep_view() == ai_item_of(*item),
{
    let mut options: Vec<AiMenuDietOption> = Vec::new();
    let mut i: usize = 0;
    proof {
        assert(item.options@.take(0) =~= Seq::<MenuDietOption>::empty());
        assert(options.deep_view() =~= ai_options_of(item.options@.take(0)));
    }
    while i < item.options.len()
        invariant
            i <= item.options@.len(),
            options.deep_view() == ai_options_of(item.options@.take(i as int)),
        decreases item.options@.len() - i,
    {
        let option = &item.options[i];
        let ghost before = options.deep_view();
        proof {
            let prefix = item.options@.take(i as int);
            assert(item.options@.take(i + 1) =~= prefix.push(*option));
            prefix.lemma_filter_push(*option, |o: MenuDietOption| o.enabled);
        }
        if option.enabled {
            options.push(ai_option(option));
            proof {
                assert(options.deep_view() =~= before.push(ai_option_of(*option)));
                assert(ai_options_of(item.options@.take(i + 1)) =~= ai_options_of(
                    item.options@.take(i as int),
                ).push(ai_option_of(*option)));
            }
        }
        i += 1;
    }
    assert(item.options@.take(i as int) =~= item.options@);
    AiDishItem { id: item.id.clone(), meal_type: item.meal_type.name.clone(), options }
}

/// The meal slots as the oracle sees them.
pub fn ai_dish_items(items: &Vec<DishItem>) -> (r: Vec<AiDishItem>)
    ensures
        r.deep_view() == ai_items_of(items@),
{
    let mut out: Vec<AiDishItem> = Vec::new();
    let mut i: usize = 0;
    while i < items.len()
        invariant
            i <= items@.len(),
            out@.len() == i,
            forall|k: int| 0 <= k < i ==> out@[k].deep_view() == ai_item_of(items@[k]),
        decreases items@.len() - i,
    {
        out.push(ai_dish_item(&items[i]));
        i += 1;
    }
    assert(out.deep_view() =~= ai_items_of(items@));
    out
}

/// What a question holds of the days before: the labels with the options
/// that were selected, in the order of the map.
pub uninterp spec fn choice_entries(choices: IndexMap<String, Vec<AiMenuDietOption>>) -> Seq<
    (Seq<char>, Seq<AiOptionModel>),
>;

/// A map of past choices without entries.
///
/// Trusted: calls `indexmap::IndexMap::new`, which makes an empty map.
#[verifier::external_body]
fn choices_new() -> (choices: IndexMap<String, Vec<AiMenuDietOption>>)
    ensures
        choice_entries(choices) == Seq::<(Seq<char>, Seq<AiOptionModel>)>::empty(),
{
    IndexMap::new()
}

/// Puts the selected options of a day under the day's label.
///
/// Trusted: calls `indexmap::IndexMap::insert`. Where the map has an equal
/// key the entry keeps its place and gets the new value; otherwise the pair
/// becomes the last entry. The value that was replaced is dropped.
#[verifier::external_body]
fn choices_insert(
    choices: &mut IndexMap<String, Vec<AiMenuDietOption>>,
    label: String,
    options: Vec<AiMenuDietOption>,
)
    ensures
        choice_entries(*final(choices)) == put(
            choice_entries(*old(choices)),
            label@,
            options.deep_view(),
        ),
{
    choices.insert(label, options);
}

/// Whether every meal slot has a currently selected option.
pub open spec fn all_selected(items: Seq<DishItem>) -> bool {
    forall|i: int| 0 <= i < items.len() ==> (#[trigger] items[i]).selected_position() is Some
}

/// Whether `i` is the first place in `items` of a meal slot without a
/// currently selected option.
pub open spec fn is_first_unselected(items: Seq<DishItem>, i: int) -> bool {
    &&& 0 <= i < items.len()
    &&& items[i].selected_position() is None
    &&& forall|j: int| 0 <= j < i ==> (#[trigger] items[j]).selected_position() is Some
}

/// What the oracle is told of the option a meal slot is set to.
pub open spec fn selected_choice(item: DishItem) -> AiOptionModel {
    ai_option_of(item.options@[item.selected_position().unwrap()])
}

/// What the oracle is told of a past day: for each meal slot the option it
/// was set to.
pub open spec fn selected_choices(items: Seq<DishItem>) -> Seq<AiOptionModel> {
    items.map_values(|item: DishItem| selected_choice(item))
}

/// The option each meal slot of a past day was set to, as the oracle sees
/// it; or the place of the first slot that is set to none.
pub fn selected_options(day: &CalendarDayItems) -> (r: Result<Vec<AiMenuDietOption>, usize>)
    ensures
        r is Ok <==> all_selected(day.items()),
        r matches Ok(options) ==> options.deep_view() == selected_choices(day.items()),
        r matches Err(i) ==> is_first_unselected(day.items(), i as int),
{
    let members = &day.diet_elements.members;
    let mut out: Vec<AiMenuDietOption> = Vec::new();
    let mut i: usize = 0;
    while i < members.len()
        invariant
            i <= members@.len(),
            members@ == day.items(),
            out@.len() == i,
            forall|k: int| 0 <= k < i ==> (#[trigger] members@[k]).selected_position() is Some,
            forall|k: int| 0 <= k < i ==> out@[k].deep_view() == selected_choice(members@[k]),
        decreases members@.len() - i,
    {
        match members[i].get_selected_option() {
            Some(option) => {
                out.push(ai_option(option));
            },
            None => {
                return Err(i);
            },
        }
        i += 1;
    }
    assert(out.deep_view() =~= selected_choices(day.items()));
    Ok(out)
}

/// Whether every meal slot of every day of the history has a currently
/// selected option.
pub open spec fn history_complete(entries: Seq<(Seq<char>, CalendarDayItems)>) -> bool {
    forall|d: int| 0 <= d < entries.len() ==> all_selected((#[trigger] entries[d]).1.items())
}

/// What the oracle is told of the days before: each label with the options
/// that were selected that day, put into a map one after the other.
pub open spec fn choices_of(entries: Seq<(Seq<char>, CalendarDayItems)>) -> Seq<
    (Seq<char>, Seq<AiOptionModel>),
>
    decreases entries.len(),
{
    if entries.len() == 0 {
        Seq::empty()
    } else {
        put(
            choices_of(entries.drop_last()),
            entries.last().0,
            selected_choices(entries.last().1.items()),
        )
    }
}

/// What the oracle must answer for one meal slot: one of the listed dishes,
/// with a reason, and a word on each listed dish.
#[derive(Debug)]
pub struct DishItemSchema {
    pub dish_item: String,
    pub dishes: Vec<String>,
}

/// The shape that the oracle's answer must have: a list of reasoning texts,
/// and for every listed meal slot an answer of that slot's shape. Nothing
/// else may occur in it.
#[derive(Debug)]
pub struct ResponseSchema {
    pub name: String,
    pub strict: bool,
    pub reasoning_description: String,
    pub analysis_description: String,
    pub reason_description: String,
    pub items: Vec<DishItemSchema>,
}

/// The content of a `DishItemSchema`.
#[verifier::ext_equal]
pub struct DishItemSchemaModel {
    pub dish_item: Seq<char>,
    pub dishes: Seq<Seq<char>>,
}

impl DeepView for DishItemSchema {
    type V = DishItemSchemaModel;

    open spec fn deep_view(&self) -> DishItemSchemaModel {
        DishItemSchemaModel { dish_item: self.dish_item@, dishes: self.dishes.deep_view() }
    }
}

/// The dishes of the options on offer, in order.
pub open spec fn offered_dishes(options: Seq<MenuDietOption>) -> Seq<Seq<char>> {
    enabled_options(options).map_values(|o: MenuDietOption| o.dish.id@)
}

/// The shape of the answer for one meal slot: its dishes are those of the
/// options on offer.
pub open spec fn item_schema_of(item: DishItem) -> DishItemSchemaModel {
    DishItemSchemaModel { dish_item: item.id@, dishes: offered_dishes(item.options@) }
}

/// The shapes of the answers for the meal slots of a day, in order.
pub open spec fn item_schemas_of(items: Seq<DishItem>) -> Seq<DishItemSchemaModel> {
    items.map_values(|item: DishItem| item_schema_of(item))
}

/// The name under which the answer's shape is sent.
pub const SCHEMA_NAME: &'static str = "meal_selection";

/// What the oracle is told to write as its reasoning.
pub const REASONING_DESCRIPTION: &'static str = "Think about what the user might like and why";

/// What the oracle is told to write of each option.
pub const ANALYSIS_DESCRIPTION: &'static str =
    "Analyze available options and argue how good it is for the user";

/// What the oracle is told to write as the reason of its choice.
pub const REASON_DESCRIPTION: &'static str =
    "Justification why this meal should fit user preferences";

/// The model that is asked.
pub const ORACLE_MODEL: &'static str = "gpt-4o-2024-08-06";

/// The most tokens the answer may have.
pub const MAX_TOKENS: u32 = 2048;

/// The instructions that go before the question.
pub const INSTRUCTIONS: &'static str =
    "You are personal meal assistant. You have to select meals for the user. Figure out what the user wants to eat from the menu. Use historic data to figure out user preferences. Try not to pick the same meal as the user had in the last days.";

/// The shape of the answer for one meal slot.
pub fn dish_item_schema(item: &DishItem) -> (r: DishItemSchema)
    ensures
        r.deep_view() == item_schema_of(*item),
{
    let mut dishes: Vec<String> = Vec::new();
    let mut i: usize = 0;
    proof {
        assert(item.options@.take(0) =~= Seq::<MenuDietOption>::empty());
        assert(dishes.deep_view() =~= offered_dishes(item.options@.take(0)));
    }
    while i < item.options.len()
        invariant
            i <= item.options@.len(),
            dishes.deep_view() == offered_dishes(item.options@.take(i as int)),
        decreases item.options@.len() - i,
    {
        let option = &item.options[i];
        let ghost before = dishes.deep_view();
        proof {
            let prefix = item.options@.take(i as int);
            assert(item.options@.take(i + 1) =~= prefix.push(*option));
            prefix.lemma_filter_push(*option, |o: MenuDietOption| o.enabled);
        }
        if option.enabled {
            dishes.push(option.dish.id.clone());
            proof {
                assert(dishes.deep_view() =~= before.push(option.dish.id@));
                assert(offered_dishes(item.options@.take(i + 1)) =~= offered_dishes(
                    item.options@.take(i as int),
                ).push(option.dish.id@));
            }
        }
        i += 1;
    }
    assert(item.options@.take(i as int) =~= item.options@);
    DishItemSchema { dish_item: item.id.clone(), dishes }
}

/// The shape that the oracle's answer for the given meal slots must have.
pub fn response_schema(dish_items: &Vec<DishItem>) -> (r: ResponseSchema)
    ensures
        r.items.deep_view() == item_schemas_of(dish_items@),
        r.name@ == SCHEMA_NAME@,
        r.strict,
        r.reasoning_description@ == REASONING_DESCRIPTION@,
        r.analysis_description@ == ANALYSIS_DESCRIPTION@,
        r.reason_description@ == REASON_DESCRIPTION@,
{
    let mut items: Vec<DishItemSchema> = Vec::new();
    let mut i: usize = 0;
    while i < dish_items.len()
        invariant
            i <= dish_items@.len(),
            items@.len() == i,
            forall|k: int| 0 <= k < i ==> items@[k].deep_view() == item_schema_of(dish_items@[k]),
        decreases dish_items@.len() - i,
    {
        items.push(dish_item_schema(&dish_items[i]));
        i += 1;
    }
    assert(items.deep_view() =~= item_schemas_of(dish_items@));
    ResponseSchema {
        name: String::from_str(SCHEMA_NAME),
        strict: true,
        reasoning_description: String::from_str(REASONING_DESCRIPTION),
        analysis_description: String::from_str(ANALYSIS_DESCRIPTION),
        reason_description: String::from_str(REASON_DESCRIPTION),
        items,
    }
}

/// Why no recommendation was had from the oracle.
#[derive(Debug, Clone, Copy, PartialEq, Eq, Structural)]
pub enum OracleError {
    /// The answer holds no choice.
    NoResponse,
    /// The first choice of the answer holds no content.
    NoContent,
    /// The content does not have the shape that was asked for.
    Malformed,
    /// The answer has nothing for the meal slot at this place of the day.
    MissingSelection { dish_item: usize },
    /// The answer for the meal slot at this place names a dish that is not
    /// on offer for it.
    DishNotOffered { dish_item: usize },
    /// In the history, the day at this place has, at this place, a meal slot
    /// that is set to no option.
    NoSelectedOption { day: usize, dish_item: usize },
}

/// All that is sent to the oracle for one day.
#[derive(Debug)]
pub struct OracleCall {
    pub instructions: String,
    pub question: SelectDishQuestion,
    pub schema: ResponseSchema,
    pub model: String,
    pub max_tokens: u32,
}

/// Whether `d` is the first day of the history with a meal slot that is set
/// to no option, and `k` the first such slot of that day.
pub open spec fn is_first_gap(entries: Seq<(Seq<char>, CalendarDayItems)>, d: int, k: int) -> bool {
    &&& 0 <= d < entries.len()
    &&& is_first_unselected(entries[d].1.items(), k)
    &&& forall|c: int| 0 <= c < d ==> all_selected((#[trigger] entries[c]).1.items())
}

/// What is sent to the oracle to have a recommendation for the menu of `date`: the
/// meal slots with their options on offer, for each day of the history the
/// options that were selected, the adjustments so far, and the shape the
/// answer must have. It fails where the history holds a meal slot that is
/// set to no option.
pub fn select_dish(
    date: Date,
    dish_items: &Vec<DishItem>,
    last_days_choices: &IndexMap<String, CalendarDayItems>,
    user_changes: Vec<UserAdjustment>,
) -> (r: Result<OracleCall, OracleError>)
    ensures
        r is Ok <==> history_complete(history_entries(*last_days_choices)),
        r matches Ok(call) ==> {
            &&& call.question.menu_date == date
            &&& call.question.user_changes == user_changes
            &&& call.question.dish_items.deep_view() == ai_items_of(dish_items@)
            &&& choice_entries(call.question.last_days_choices) == choices_of(
                history_entries(*last_days_choices),
            )
            &&& call.schema.items.deep_view() == item_schemas_of(dish_items@)
            &&& call.schema.name@ == SCHEMA_NAME@
            &&& call.schema.strict
            &&& call.schema.reasoning_description@ == REASONING_DESCRIPTION@
            &&& call.schema.analysis_description@ == ANALYSIS_DESCRIPTION@
            &&& call.schema.reason_description@ == REASON_DESCRIPTION@
            &&& call.instructions@ == INSTRUCTIONS@
            &&& call.model@ == ORACLE_MODEL@
            &&& call.max_tokens == MAX_TOKENS
        },
        r matches Err(e) ==> exists|d: int, k: int|
            #![trigger is_first_gap(history_entries(*last_days_choices), d, k)]
            is_first_gap(history_entries(*last_days_choices), d, k) && e
                == (OracleError::NoSelectedOption { day: d as usize, dish_item: k as usize }),
{
    let ghost entries = history_entries(*last_days_choices);
    let mut choices = choices_new();
    let n = history_len(last_days_choices);
    let mut d: usize = 0;
    proof {
        assert(entries.take(0) =~= Seq::<(Seq<char>, CalendarDayItems)>::empty());
    }
    while d < n
        invariant
            d <= n,
            n == entries.len(),
            entries == history_entries(*last_days_choices),
            choice_entries(choices) == choices_of(entries.take(d as int)),
            forall|c: int| 0 <= c < d ==> all_selected((#[trigger] entries[c]).1.items()),
        decreases n - d,
    {
        let (label, day) = history_entry(last_days_choices, d);
        proof {
            let next = entries.take(d + 1);
            assert(next.drop_last() =~= entries.take(d as int));
            assert(next.last() == entries[d as int]);
        }
        match selected_options(day) {
            Ok(options) => {
                choices_insert(&mut choices, label.clone(), options);
            },
            Err(k) => {
                assert(is_first_gap(entries, d as int, k as int));
                return Err(OracleError::NoSelectedOption { day: d, dish_item: k });
            },
        }
        d += 1;
    }
    assert(entries.take(d as int) =~= entries);
    let question = SelectDishQuestion {
        user_changes,
        last_days_choices: choices,
        dish_items: ai_dish_items(dish_items),
        menu_date: date,
    };
    Ok(
        OracleCall {
            instructions: String::from_str(INSTRUCTIONS),
            question,
            schema: response_schema(dish_items),
            model: String::from_str(ORACLE_MODEL),
            max_tokens: MAX_TOKENS,
        },
    )
}

/// The text of the oracle's answer: the content of its first choice.
pub fn first_content(choices: &Vec<Option<String>>) -> (r: Result<&String, OracleError>)
    ensures
        match r {
            Ok(text) => choices@.len() > 0 && choices@[0] == Some(*text),
            Err(e) => if choices@.len() == 0 {
                e == OracleError::NoResponse
            } else {
                choices@[0] is None && e == OracleError::NoContent
            },
        },
{
    if choices.len() == 0 {
        return Err(OracleError::NoResponse);
    }
    match &choices[0] {
        Some(text) => Ok(text),
        None => Err(OracleError::NoContent),
    }
}

/// The answers of a response with their meal slots' identifiers as texts.
pub open spec fn selection_entries(selections: Seq<(String, ResponseItem)>) -> Seq<
    (Seq<char>, ResponseItem),
> {
    selections.map_values(|e: (String, ResponseItem)| (e.0@, e.1))
}

/// The place in `selections` of the first answer for the meal slot with the
/// given identifier.
pub open spec fn selection_place(selections: Seq<(String, ResponseItem)>, id: Seq<char>) -> Option<
    int,
> {
    let p = key_position(selection_entries(selections), id);
    if p < selections.len() {
        Some(p)
    } else {
        None
    }
}

/// What is wrong with the answers as far as the meal slot `item`, at place
/// `place` of the day, goes: there is none for it, or the first one for it
/// names a dish that is not on offer for it.
pub open spec fn item_fault(
    item: DishItem,
    selections: Seq<(String, ResponseItem)>,
    place: int,
) -> Option<OracleError> {
    match selection_place(selections, item.id@) {
        None => Some(OracleError::MissingSelection { dish_item: place as usize }),
        Some(p) => if item.offered_place(selections[p].1.dish_id@) is None {
            Some(OracleError::DishNotOffered { dish_item: place as usize })
        } else {
            None
        },
    }
}

/// Whether the answers hold, for every meal slot, a dish that is on offer
/// for it.
pub open spec fn answers_all(items: Seq<DishItem>, selections: Seq<(String, ResponseItem)>) -> bool {
    forall|i: int| 0 <= i < items.len() ==> item_fault(#[trigger] items[i], selections, i) is None
}

/// Whether `i` is the first place in `items` of a meal slot for which
/// something is wrong with the answers.
pub open spec fn is_first_fault(
    items: Seq<DishItem>,
    selections: Seq<(String, ResponseItem)>,
    i: int,
) -> bool {
    &&& 0 <= i < items.len()
    &&& item_fault(items[i], selections, i) is Some
    &&& forall|j: int| 0 <= j < i ==> item_fault(#[trigger] items[j], selections, j) is None
}

/// The place in `selections` of the first answer for the meal slot with the
/// given identifier.
pub fn find_selection(selections: &Vec<(String, ResponseItem)>, id: &str) -> (r: Option<usize>)
    ensures
        r is Some <==> selection_place(selections@, id@) is Some,
        r matches Some(p) ==> selection_place(selections@, id@) == Some(p as int),
{
    let ghost entries = selection_entries(selections@);
    let mut i: usize = 0;
    while i < selections.len()
        invariant
            i <= selections@.len(),
            entries == selection_entries(selections@),
            forall|j: int| 0 <= j < i ==> entries[j].0 != id@,
        decreases selections@.len() - i,
    {
        assert(entries[i as int].0 == selections@[i as int].0@);
        if same_text(selections[i].0.as_str(), id) {
            proof {
                lemma_key_position(entries, id@);
                let p = key_position(entries, id@);
                if p < i {
                    assert(entries[p].0 == id@);
                }
            }
            return Some(i);
        }
        i += 1;
    }
    proof {
        lemma_key_position(entries, id@);
        let p = key_position(entries, id@);
        if p < entries.len() {
            assert(entries[p].0 == id@);
        }
    }
    None
}

/// Accepts the oracle's answer, or says why not. `parsed` is the answer as
/// read from the content, `None` where the content did not have the shape
/// that was asked for. An answer is accepted when it holds, for every meal
/// slot of the day, a dish that is on offer for that slot.
pub fn check_response(dish_items: &Vec<DishItem>, parsed: Option<AiResponse>) -> (r: Result<
    AiResponse,
    OracleError,
>)
    ensures
        match r {
            Ok(response) => parsed == Some(response) && answers_all(
                dish_items@,
                response.selections@,
            ),
            Err(e) => match parsed {
                None => e == OracleError::Malformed,
                Some(response) => exists|i: int|
                    #![trigger is_first_fault(dish_items@, response.selections@, i)]
                    is_first_fault(dish_items@, response.selections@, i) && Some(e) == item_fault(
                        dish_items@[i],
                        response.selections@,
                        i,
                    ),
            },
        },
{
    let response = match parsed {
        Some(response) => response,
        None => {
            return Err(OracleError::Malformed);
        },
    };
    let mut i: usize = 0;
    while i < dish_items.len()
        invariant
            i <= dish_items@.len(),
            parsed == Some(response),
            forall|j: int|
                0 <= j < i ==> item_fault(#[trigger] dish_items@[j], response.selections@, j)
                    is None,
        decreases dish_items@.len() - i,
    {
        let item = &dish_items[i];
        match find_selection(&response.selections, item.id.as_str()) {
            None => {
                assert(is_first_fault(dish_items@, response.selections@, i as int));
                assert(parsed->0 == response);
                return Err(OracleError::MissingSelection { dish_item: i });
            },
            Some(p) => {
                if item.offered_position(response.selections[p].1.dish_id.as_str()).is_none() {
                    assert(is_first_fault(dish_items@, response.selections@, i as int));
                    assert(parsed->0 == response);
                    return Err(OracleError::DishNotOffered { dish_item: i });
                }
            },
        }
        i += 1;
    }
    Ok(response)
}

/// An answer that has nothing for one of the meal slots of the day is not
/// accepted.
pub proof fn law_omitted_slot_is_rejected(
    items: Seq<DishItem>,
    selections: Seq<(String, ResponseItem)>,
    i: int,
)
    requires
        0 <= i < items.len(),
        selection_place(selections, items[i].id@) is None,
    ensures
        !answers_all(items, selections),
        item_fault(items[i], selections, i) == Some(
            OracleError::MissingSelection { dish_item: i as usize },
        ),
{
}

} // verus!
