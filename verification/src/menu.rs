//! The menu of one day: meal slots, their options, and the changes a user
//! asks for.

use vstd::prelude::*;
use crate::text::same_text;
use vstd::string::StringExecFns;

verus! {

/// A dish, known by its identifier.
#[derive(Debug)]
pub struct Dish {
    pub id: String,
}

/// The dish a meal slot is currently set to.
#[derive(Debug)]
pub struct DishSize {
    pub dish: Dish,
}

/// The label of a meal slot, such as lunch.
#[derive(Debug)]
pub struct MealType {
    pub name: String,
}

/// The ingredient list of one dish in one size.
#[derive(Debug)]
pub struct DishSizeIngredients {
    pub ingredients: Vec<String>,
}

/// What an ingredient lookup hands back: a list of ingredient records.
#[derive(Debug)]
pub struct DishIngredients {
    pub members: Vec<DishSizeIngredients>,
}

/// One dish that can be chosen for a meal slot. Its ingredients are absent
/// until they have been looked up.
#[derive(Debug)]
pub struct MenuDietOption {
    pub name: String,
    pub ingredients: Option<DishSizeIngredients>,
    pub enabled: bool,
    pub dish: Dish,
    pub dish_size_id: i64,
}

/// One meal slot of one day, with every dish that exists for it.
#[derive(Debug)]
pub struct DishItem {
    pub id: String,
    pub options: Vec<MenuDietOption>,
    pub meal_type: MealType,
    pub dish_size: DishSize,
}

/// The list of meal slots of a day.
#[derive(Debug)]
pub struct DietElements {
    pub members: Vec<DishItem>,
}

/// All meal slots of one calendar day.
#[derive(Debug)]
pub struct CalendarDayItems {
    pub diet_elements: DietElements,
}

/// The options of `options` that may be offered, in their order.
pub open spec fn enabled_options(options: Seq<MenuDietOption>) -> Seq<MenuDietOption> {
    options.filter(|o: MenuDietOption| o.enabled)
}

/// The values behind a sequence of references.
pub open spec fn referents(refs: Seq<&MenuDietOption>) -> Seq<MenuDietOption> {
    refs.map_values(|o: &MenuDietOption| *o)
}

/// Whether `i` is the first place in `options` whose dish has identifier `id`.
pub open spec fn is_first_with_dish(options: Seq<MenuDietOption>, id: Seq<char>, i: int) -> bool {
    &&& 0 <= i < options.len()
    &&& options[i].dish.id@ == id
    &&& forall|j: int| 0 <= j < i ==> options[j].dish.id@ != id
}

/// Whether some option of `options` has a dish with identifier `id`.
pub open spec fn has_dish(options: Seq<MenuDietOption>, id: Seq<char>) -> bool {
    exists|i: int| 0 <= i < options.len() && #[trigger] options[i].dish.id@ == id
}

/// The first place in `options` whose dish has identifier `id`, or the
/// length of `options` if there is none.
pub open spec fn dish_position(options: Seq<MenuDietOption>, id: Seq<char>) -> int
    decreases options.len(),
{
    if options.len() == 0 {
        0
    } else if options[0].dish.id@ == id {
        0
    } else {
        1 + dish_position(options.drop_first(), id)
    }
}

/// `dish_position` is the first matching place, and the length exactly when
/// nothing matches.
pub proof fn lemma_dish_position(options: Seq<MenuDietOption>, id: Seq<char>)
    ensures
        0 <= dish_position(options, id) <= options.len(),
        dish_position(options, id) < options.len() ==> is_first_with_dish(
            options,
            id,
            dish_position(options, id),
        ),
        dish_position(options, id) == options.len() ==> !has_dish(options, id),
        forall|j: int| 0 <= j < dish_position(options, id) ==> options[j].dish.id@ != id,
    decreases options.len(),
{
    if options.len() == 0 {
    } else if options[0].dish.id@ == id {
    } else {
        let rest = options.drop_first();
        lemma_dish_position(rest, id);
        let p = dish_position(rest, id);
        assert forall|j: int| 0 <= j < 1 + p implies options[j].dish.id@ != id by {
            if j > 0 {
                assert(rest[j - 1] == options[j]);
            }
        }
        if p < rest.len() {
            assert(rest[p] == options[p + 1]);
        }
    }
}

/// Walks `options` to the first one whose dish has identifier `dish_id`.
fn find_dish_position(options: &Vec<MenuDietOption>, dish_id: &str) -> (r: usize)
    ensures
        r == dish_position(options@, dish_id@),
        r <= options@.len(),
{
    let mut i: usize = 0;
    proof {
        lemma_dish_position(options@, dish_id@);
    }
    while i < options.len()
        invariant
            i <= options@.len(),
            forall|j: int| 0 <= j < i ==> options@[j].dish.id@ != dish_id@,
        decreases options@.len() - i,
    {
        if same_text(options[i].dish.id.as_str(), dish_id) {
            proof {
                lemma_dish_position(options@, dish_id@);
                let p = dish_position(options@, dish_id@);
                if p < i {
                    assert(options@[p].dish.id@ == dish_id@);
                }
                if p > i {
                    assert(options@[i as int].dish.id@ != dish_id@);
                }
            }
            return i;
        }
        i += 1;
    }
    proof {
        lemma_dish_position(options@, dish_id@);
        let p = dish_position(options@, dish_id@);
        if p < options@.len() {
            assert(options@[p].dish.id@ == dish_id@);
        }
    }
    i
}

impl DishItem {
    /// The identifier of the dish this slot is currently set to.
    pub open spec fn default_dish(&self) -> Seq<char> {
        self.dish_size.dish.id@
    }

    /// The place of the currently selected option among all options: the
    /// first one whose dish is the slot's current dish, if any.
    pub open spec fn selected_position(&self) -> Option<int> {
        let p = dish_position(self.options@, self.default_dish());
        if p < self.options@.len() {
            Some(p)
        } else {
            None
        }
    }

    /// The options that may be offered to the user, in their order.
    pub fn options(&self) -> (r: Vec<&MenuDietOption>)
        ensures
            referents(r@) == enabled_options(self.options@),
    {
        let mut out: Vec<&MenuDietOption> = Vec::new();
        let mut i: usize = 0;
        assert(self.options@.take(0) =~= Seq::<MenuDietOption>::empty());
        assert(referents(out@) =~= enabled_options(self.options@.take(0)));
        while i < self.options.len()
            invariant
                i <= self.options@.len(),
                referents(out@) == enabled_options(self.options@.take(i as int)),
            decreases self.options@.len() - i,
        {
            let option = &self.options[i];
            proof {
                let prefix = self.options@.take(i as int);
                assert(self.options@.take(i + 1) =~= prefix.push(*option));
                prefix.lemma_filter_push(*option, |o: MenuDietOption| o.enabled);
            }
            let ghost before = out@;
            if option.enabled {
                out.push(option);
                assert(referents(out@) =~= referents(before).push(*option));
            }
            i += 1;
        }
        assert(self.options@.take(i as int) =~= self.options@);
        out
    }

    /// The first option, enabled or not, whose dish has the given identifier.
    pub fn get_dish(&self, dish_id: &str) -> (r: Option<&MenuDietOption>)
        ensures
            r is Some <==> has_dish(self.options@, dish_id@),
            r matches Some(o) ==> *o == self.options@[dish_position(self.options@, dish_id@)],
    {
        let p = find_dish_position(&self.options, dish_id);
        proof {
            lemma_dish_position(self.options@, dish_id@);
        }
        if p < self.options.len() {
            Some(&self.options[p])
        } else {
            None
        }
    }

    /// The option this slot is currently set to: the first one whose dish is
    /// the slot's current dish.
    pub fn get_selected_option(&self) -> (r: Option<&MenuDietOption>)
        ensures
            r is Some <==> self.selected_position() is Some,
            r matches Some(o) ==> *o == self.options@[self.selected_position().unwrap()],
    {
        let p = find_dish_position(&self.options, self.dish_size.dish.id.as_str());
        if p < self.options.len() {
            Some(&self.options[p])
        } else {
            None
        }
    }
}

impl DishItem {
    /// The options on offer.
    pub open spec fn offered(&self) -> Seq<MenuDietOption> {
        enabled_options(self.options@)
    }

    /// The place among the options on offer of the first one whose dish has
    /// the given identifier.
    pub open spec fn offered_place(&self, dish_id: Seq<char>) -> Option<int> {
        let p = dish_position(self.offered(), dish_id);
        if p < self.offered().len() {
            Some(p)
        } else {
            None
        }
    }

    /// The place among the options on offer of the first one whose dish has
    /// the given identifier.
    pub fn offered_position(&self, dish_id: &str) -> (r: Option<usize>)
        ensures
            r is Some <==> self.offered_place(dish_id@) is Some,
            r matches Some(p) ==> self.offered_place(dish_id@) == Some(p as int),
    {
        let offered = self.options();
        let mut i: usize = 0;
        while i < offered.len()
            invariant
                i <= offered@.len(),
                referents(offered@) == self.offered(),
                forall|j: int| 0 <= j < i ==> self.offered()[j].dish.id@ != dish_id@,
            decreases offered@.len() - i,
        {
            assert(referents(offered@)[i as int] == *offered@[i as int]);
            if same_text(offered[i].dish.id.as_str(), dish_id) {
                proof {
                    lemma_dish_position(self.offered(), dish_id@);
                    let p = dish_position(self.offered(), dish_id@);
                    if p < i {
                        assert(self.offered()[p].dish.id@ == dish_id@);
                    }
                }
                return Some(i);
            }
            i += 1;
        }
        proof {
            lemma_dish_position(self.offered(), dish_id@);
            let p = dish_position(self.offered(), dish_id@);
            if p < self.offered().len() {
                assert(self.offered()[p].dish.id@ == dish_id@);
            }
        }
        None
    }
}

/// Whether two positions are in dictionary order: `a` strictly before `b`.
pub open spec fn place_before(a: (int, int), b: (int, int)) -> bool {
    a.0 < b.0 || (a.0 == b.0 && a.1 < b.1)
}

/// The line that `debug_options` writes for one offered option: a star in
/// the brackets if its dish is `selected_id`.
pub open spec fn option_line(option: MenuDietOption, selected_id: Seq<char>) -> Seq<char> {
    seq![' ', ' ', '['] + (if option.dish.id@ == selected_id {
        seq!['*']
    } else {
        seq![' ']
    }) + seq![']', ' '] + option.name@ + seq!['\n']
}

/// The lines of the offered options of `options`, in order.
pub open spec fn option_lines(options: Seq<MenuDietOption>, selected_id: Seq<char>) -> Seq<char>
    decreases options.len(),
{
    if options.len() == 0 {
        Seq::empty()
    } else {
        option_lines(options.drop_last(), selected_id) + (if options.last().enabled {
            option_line(options.last(), selected_id)
        } else {
            Seq::empty()
        })
    }
}

/// The summary of one meal slot: its label on a line, then its option lines.
pub open spec fn item_summary(item: DishItem) -> Seq<char> {
    item.meal_type.name@ + seq!['\n'] + option_lines(item.options@, item.marked_dish())
}

/// The summaries of all meal slots of `items`, in order.
pub open spec fn day_summary(items: Seq<DishItem>) -> Seq<char>
    decreases items.len(),
{
    if items.len() == 0 {
        Seq::empty()
    } else {
        day_summary(items.drop_last()) + item_summary(items.last())
    }
}

impl DishItem {
    /// The dish identifier that the summary marks with a star: the slot's
    /// current dish if an option has it, else the empty identifier.
    pub open spec fn marked_dish(&self) -> Seq<char> {
        if self.selected_position() is Some {
            self.default_dish()
        } else {
            Seq::empty()
        }
    }
}

/// Whether `i` is the first place in `items` whose identifier is `id`.
pub open spec fn is_first_item(items: Seq<DishItem>, id: Seq<char>, i: int) -> bool {
    &&& 0 <= i < items.len()
    &&& items[i].id@ == id
    &&& forall|j: int| 0 <= j < i ==> items[j].id@ != id
}

/// Whether some meal slot of `items` has identifier `id`.
pub open spec fn has_item(items: Seq<DishItem>, id: Seq<char>) -> bool {
    exists|i: int| 0 <= i < items.len() && #[trigger] items[i].id@ == id
}

/// The first place in `items` whose identifier is `id`, or the length of
/// `items` if there is none.
pub open spec fn item_position(items: Seq<DishItem>, id: Seq<char>) -> int
    decreases items.len(),
{
    if items.len() == 0 {
        0
    } else if items[0].id@ == id {
        0
    } else {
        1 + item_position(items.drop_first(), id)
    }
}

/// `item_position` is the first matching place, and the length exactly when
/// nothing matches.
pub proof fn lemma_item_position(items: Seq<DishItem>, id: Seq<char>)
    ensures
        0 <= item_position(items, id) <= items.len(),
        item_position(items, id) < items.len() ==> is_first_item(
            items,
            id,
            item_position(items, id),
        ),
        item_position(items, id) == items.len() ==> !has_item(items, id),
        forall|j: int| 0 <= j < item_position(items, id) ==> items[j].id@ != id,
    decreases items.len(),
{
    if items.len() == 0 {
    } else if items[0].id@ == id {
    } else {
        let rest = items.drop_first();
        lemma_item_position(rest, id);
        let p = item_position(rest, id);
        assert forall|j: int| 0 <= j < 1 + p implies items[j].id@ != id by {
            if j > 0 {
                assert(rest[j - 1] == items[j]);
            }
        }
        if p < rest.len() {
            assert(rest[p] == items[p + 1]);
        }
    }
}

/// Walks `items` to the first one whose identifier is `id`.
pub(crate) fn find_item_position(items: &Vec<DishItem>, id: &str) -> (r: usize)
    ensures
        r == item_position(items@, id@),
        r <= items@.len(),
{
    let mut i: usize = 0;
    while i < items.len()
        invariant
            i <= items@.len(),
            forall|j: int| 0 <= j < i ==> items@[j].id@ != id@,
        decreases items@.len() - i,
    {
        if same_text(items[i].id.as_str(), id) {
            proof {
                lemma_item_position(items@, id@);
                let p = item_position(items@, id@);
                if p < i {
                    assert(items@[p].id@ == id@);
                }
            }
            return i;
        }
        i += 1;
    }
    proof {
        lemma_item_position(items@, id@);
        let p = item_position(items@, id@);
        if p < items@.len() {
            assert(items@[p].id@ == id@);
        }
    }
    i
}

impl CalendarDayItems {
    /// The meal slots of the day.
    pub open spec fn items(&self) -> Seq<DishItem> {
        self.diet_elements.members@
    }

    /// The first meal slot with the given identifier.
    pub fn get_dish_item(&self, dish_item_id: &str) -> (r: Option<&DishItem>)
        ensures
            r is Some <==> has_item(self.items(), dish_item_id@),
            r matches Some(item) ==> *item == self.items()[item_position(
                self.items(),
                dish_item_id@,
            )],
    {
        let p = find_item_position(&self.diet_elements.members, dish_item_id);
        proof {
            lemma_item_position(self.items(), dish_item_id@);
        }
        if p < self.diet_elements.members.len() {
            Some(&self.diet_elements.members[p])
        } else {
            None
        }
    }

    /// The first option with the given dish in the first meal slot with the
    /// given identifier.
    pub fn get_dish(&self, dish_item_id: &str, dish_id: &str) -> (r: Option<&MenuDietOption>)
        ensures
            r is Some <==> has_item(self.items(), dish_item_id@) && has_dish(
                self.items()[item_position(self.items(), dish_item_id@)].options@,
                dish_id@,
            ),
            r matches Some(o) ==> {
                let item = self.items()[item_position(self.items(), dish_item_id@)];
                *o == item.options@[dish_position(item.options@, dish_id@)]
            },
    {
        match self.get_dish_item(dish_item_id) {
            Some(item) => item.get_dish(dish_id),
            None => None,
        }
    }

    /// A summary of the day for the terminal: each meal slot's label, then
    /// one line for each option on offer, the current one marked.
    pub fn debug_options(&self) -> (summary: String)
        ensures
            summary@ == day_summary(self.items()),
    {
        let mut summary = String::new();
        let members = &self.diet_elements.members;
        let mut i: usize = 0;
        proof {
            reveal_strlit("\n");
            reveal_strlit("");
            reveal_strlit("  [");
            reveal_strlit("*");
            reveal_strlit(" ");
            reveal_strlit("] ");
            assert(members@.take(0) =~= Seq::<DishItem>::empty());
        }
        while i < members.len()
            invariant
                i <= members@.len(),
                summary@ == day_summary(members@.take(i as int)),
                "\n"@ == seq!['\n'],
                ""@ == Seq::<char>::empty(),
                "  ["@ == seq![' ', ' ', '['],
                "*"@ == seq!['*'],
                " "@ == seq![' '],
                "] "@ == seq![']', ' '],
            decreases members@.len() - i,
        {
            let dish = &members[i];
            let ghost before = summary@;
            summary.append(dish.meal_type.name.as_str());
            summary.append("\n");
            let selected: &str = match dish.get_selected_option() {
                Some(option) => option.dish.id.as_str(),
                None => "",
            };
            assert(selected@ == dish.marked_dish()) by {
                lemma_dish_position(dish.options@, dish.default_dish());
            }
            let mut j: usize = 0;
            assert(dish.options@.take(0) =~= Seq::<MenuDietOption>::empty());
            assert(summary@ =~= before + dish.meal_type.name@ + seq!['\n'] + option_lines(
                dish.options@.take(0),
                selected@,
            ));
            while j < dish.options.len()
                invariant
                    j <= dish.options@.len(),
                    summary@ == before + dish.meal_type.name@ + seq!['\n'] + option_lines(
                        dish.options@.take(j as int),
                        selected@,
                    ),
                    "\n"@ == seq!['\n'],
                    "  ["@ == seq![' ', ' ', '['],
                    "*"@ == seq!['*'],
                    " "@ == seq![' '],
                    "] "@ == seq![']', ' '],
                decreases dish.options@.len() - j,
            {
                let option = &dish.options[j];
                let ghost head = summary@;
                proof {
                    let next = dish.options@.take(j + 1);
                    assert(next.drop_last() =~= dish.options@.take(j as int));
                    assert(next.last() == *option);
                }
                if option.enabled {
                    summary.append("  [");
                    if same_text(option.dish.id.as_str(), selected) {
                        summary.append("*");
                    } else {
                        summary.append(" ");
                    }
                    summary.append("] ");
                    summary.append(option.name.as_str());
                    summary.append("\n");
                    assert(summary@ =~= head + option_line(*option, selected@));
                }
                j += 1;
                assert(summary@ =~= before + dish.meal_type.name@ + seq!['\n'] + option_lines(
                    dish.options@.take(j as int),
                    selected@,
                ));
            }
            proof {
                assert(dish.options@.take(j as int) =~= dish.options@);
                let next = members@.take(i + 1);
                assert(next.drop_last() =~= members@.take(i as int));
                assert(next.last() == *dish);
                assert(summary@ =~= before + item_summary(*dish));
            }
            i += 1;
        }
        assert(members@.take(i as int) =~= members@);
        summary
    }
}

impl CalendarDayItems {
    /// Whether the option at place `j` of the meal slot at place `i` is on
    /// offer and still without its ingredients.
    pub open spec fn lacks_ingredients(&self, i: int, j: int) -> bool {
        &&& 0 <= i < self.items().len()
        &&& 0 <= j < self.items()[i].options@.len()
        &&& self.items()[i].options@[j].enabled
        &&& self.items()[i].options@[j].ingredients is None
    }

    /// Whether every option on offer has its ingredients.
    pub open spec fn hydrated(&self) -> bool {
        forall|i: int, j: int| !self.lacks_ingredients(i, j)
    }

    /// The first option on offer that is still without its ingredients, as
    /// the place of its meal slot and its place among the slot's options.
    pub fn next_missing_ingredients(&self) -> (r: Option<(usize, usize)>)
        ensures
            r is None <==> self.hydrated(),
            r matches Some((i, j)) ==> {
                &&& self.lacks_ingredients(i as int, j as int)
                &&& forall|a: int, b: int| #[trigger]
                    self.lacks_ingredients(a, b) ==> !place_before((a, b), (i as int, j as int))
            },
    {
        let members = &self.diet_elements.members;
        let mut i: usize = 0;
        while i < members.len()
            invariant
                i <= members@.len(),
                members@ == self.items(),
                forall|a: int, b: int| #[trigger] self.lacks_ingredients(a, b) ==> a >= i,
            decreases members@.len() - i,
        {
            let options = &members[i].options;
            let mut j: usize = 0;
            while j < options.len()
                invariant
                    i < members@.len(),
                    j <= options@.len(),
                    members@ == self.items(),
                    options@ == self.items()[i as int].options@,
                    forall|a: int, b: int| #[trigger]
                        self.lacks_ingredients(a, b) ==> a > i || (a == i && b >= j),
                decreases options@.len() - j,
            {
                if options[j].enabled && options[j].ingredients.is_none() {
                    assert(self.lacks_ingredients(i as int, j as int));
                    return Some((i, j));
                }
                j += 1;
            }
            i += 1;
        }
        None
    }

    /// Gives the option at place `j` of the meal slot at place `i` its
    /// ingredients and says whether there is such an option. Nothing else
    /// changes.
    pub fn attach_ingredients(&mut self, i: usize, j: usize, ingredients: DishSizeIngredients) -> (r:
        bool)
        ensures
            r <==> i < old(self).items().len() && j < old(self).items()[i as int].options@.len(),
            !r ==> *final(self) == *old(self),
            final(self).items().len() == old(self).items().len(),
            forall|k: int|
                0 <= k < old(self).items().len() && k != i ==> final(self).items()[k] == old(
                    self,
                ).items()[k],
            r ==> {
                let before = old(self).items()[i as int];
                let after = final(self).items()[i as int];
                &&& after.id == before.id
                &&& after.meal_type == before.meal_type
                &&& after.dish_size == before.dish_size
                &&& after.options@ == before.options@.update(
                    j as int,
                    MenuDietOption {
                        name: before.options@[j as int].name,
                        ingredients: Some(ingredients),
                        enabled: before.options@[j as int].enabled,
                        dish: before.options@[j as int].dish,
                        dish_size_id: before.options@[j as int].dish_size_id,
                    },
                )
            },
    {
        if i < self.diet_elements.members.len() && j < self.diet_elements.members[i].options.len() {
            self.diet_elements.members[i].options[j].ingredients = Some(ingredients);
            true
        } else {
            false
        }
    }
}

/// One change of one meal slot: the slot and the dish it is to be set to.
#[derive(Debug)]
pub struct ChangeMenuItem {
    pub dish: String,
    pub dish_item: String,
}

/// The changes of one day, sent together.
#[derive(Debug)]
pub struct ChangeMenuRequest {
    pub items: Vec<ChangeMenuItem>,
}

impl Default for ChangeMenuRequest {
    fn default() -> (r: Self)
        ensures
            r.items@.len() == 0,
    {
        ChangeMenuRequest { items: Vec::new() }
    }
}

/// Whether `places` says where in `whole` the entries of `part` stand, one
/// place for each, the places strictly ascending.
pub open spec fn is_embedding(
    places: Seq<int>,
    part: Seq<MenuDietOption>,
    whole: Seq<MenuDietOption>,
) -> bool {
    &&& places.len() == part.len()
    &&& forall|k: int| 0 <= k < places.len() ==> 0 <= #[trigger] places[k] < whole.len()
    &&& forall|k: int| 0 <= k < places.len() ==> part[k] == whole[#[trigger] places[k]]
    &&& forall|k: int, l: int| 0 <= k < l < places.len() ==> places[k] < places[l]
}

/// The options on offer are a part of all options that keeps their order:
/// each of them is enabled, every enabled option is among them, and they
/// stand in the full list at ascending places, which are handed back. There
/// are fewer of them than options exactly when some option is disabled.
pub proof fn law_offered_is_ordered_part(options: Seq<MenuDietOption>) -> (places: Seq<int>)
    ensures
        is_embedding(places, enabled_options(options), options),
        forall|k: int|
            0 <= k < enabled_options(options).len() ==> (#[trigger] enabled_options(
                options,
            )[k]).enabled,
        forall|i: int|
            0 <= i < options.len() && (#[trigger] options[i]).enabled ==> places.contains(i),
        enabled_options(options).len() <= options.len(),
        enabled_options(options).len() < options.len() <==> exists|i: int|
            0 <= i < options.len() && !(#[trigger] options[i]).enabled,
    decreases options.len(),
{
    let pred = |o: MenuDietOption| o.enabled;
    if options.len() == 0 {
        assert(options.filter(pred) =~= Seq::<MenuDietOption>::empty()) by {
            options.lemma_filter_len(pred);
        }
        Seq::empty()
    } else {
        let front = options.drop_last();
        let last = options.last();
        let front_places = law_offered_is_ordered_part(front);
        assert(options =~= front.push(last));
        front.lemma_filter_push(last, pred);
        let places = if last.enabled {
            front_places.push(options.len() - 1)
        } else {
            front_places
        };
        let part = enabled_options(options);
        assert forall|k: int| 0 <= k < places.len() implies part[k] == options[#[trigger] places[
            k
        ]] by {
            if k < front_places.len() {
                assert(front[front_places[k]] == options[front_places[k]]);
            }
        }
        assert forall|i: int|
            0 <= i < options.len() && (#[trigger] options[i]).enabled implies places.contains(
            i,
        ) by {
            if i < front.len() {
                assert(front[i] == options[i]);
                let k = choose|k: int| 0 <= k < front_places.len() && front_places[k] == i;
                assert(places[k] == i);
            } else {
                assert(places[places.len() - 1] == i);
            }
        }
        if exists|i: int| 0 <= i < options.len() && !(#[trigger] options[i]).enabled {
            let i = choose|i: int| 0 <= i < options.len() && !(#[trigger] options[i]).enabled;
            if i < front.len() {
                assert(!front[i].enabled);
            }
        }
        if part.len() < options.len() {
            if last.enabled {
                let i = choose|i: int| 0 <= i < front.len() && !(#[trigger] front[i]).enabled;
                assert(!options[i].enabled);
            } else {
                assert(!options[options.len() - 1].enabled);
            }
        }
        places
    }
}

/// A meal slot is set to at most one option: two places that both are the
/// first with the slot's current dish are the same place, and it is the one
/// that `selected_position` gives.
pub proof fn law_selected_option_is_unique(item: DishItem, i: int, j: int)
    requires
        is_first_with_dish(item.options@, item.default_dish(), i),
        is_first_with_dish(item.options@, item.default_dish(), j),
    ensures
        i == j,
        item.selected_position() == Some(i),
{
    lemma_dish_position(item.options@, item.default_dish());
    let p = dish_position(item.options@, item.default_dish());
    if p < i {
        assert(item.options@[p].dish.id@ == item.default_dish());
    }
    if i < p {
        assert(item.options@[i].dish.id@ == item.default_dish());
    }
    if p < j {
        assert(item.options@[p].dish.id@ == item.default_dish());
    }
    if j < p {
        assert(item.options@[j].dish.id@ == item.default_dish());
    }
}

/// A meal slot is set to no option exactly when none of its options has the
/// slot's current dish.
pub proof fn law_selected_option_exists(item: DishItem)
    ensures
        item.selected_position() is Some <==> has_dish(item.options@, item.default_dish()),
{
    lemma_dish_position(item.options@, item.default_dish());
    let p = dish_position(item.options@, item.default_dish());
    if p < item.options@.len() {
        assert(item.options@[p].dish.id@ == item.default_dish());
    }
}

} // verus!
