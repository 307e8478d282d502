use powermeal_ai_choice::menu::CalendarDayItems;
use powermeal_ai_choice::menu::ChangeMenuRequest;
use powermeal_ai_choice::menu::DietElements;
use powermeal_ai_choice::menu::Dish;
use powermeal_ai_choice::menu::DishItem;
use powermeal_ai_choice::menu::DishSize;
use powermeal_ai_choice::menu::DishSizeIngredients;
use powermeal_ai_choice::menu::MealType;
use powermeal_ai_choice::menu::MenuDietOption;

fn option(id: &str, name: &str, enabled: bool) -> MenuDietOption {
    MenuDietOption {
        name: name.to_string(),
        ingredients: None,
        enabled,
        dish: Dish { id: id.to_string() },
        dish_size_id: 7,
    }
}

fn item(id: &str, meal: &str, current: &str, options: Vec<MenuDietOption>) -> DishItem {
    DishItem {
        id: id.to_string(),
        options,
        meal_type: MealType { name: meal.to_string() },
        dish_size: DishSize { dish: Dish { id: current.to_string() } },
    }
}

fn day(members: Vec<DishItem>) -> CalendarDayItems {
    CalendarDayItems { diet_elements: DietElements { members } }
}

fn lunch() -> DishItem {
    item(
        "item/1",
        "Lunch",
        "dish/b",
        vec![
            option("dish/a", "Soup", true),
            option("dish/x", "Stew", false),
            option("dish/b", "Pasta", true),
            option("dish/c", "Salad", true),
        ],
    )
}

fn names(options: &[&MenuDietOption]) -> Vec<String> {
    options.iter().map(|o| o.name.clone()).collect()
}

#[test]
fn only_enabled_options_are_on_offer_in_their_order() {
    let lunch = lunch();
    assert_eq!(names(&lunch.options()), vec!["Soup", "Pasta", "Salad"]);
    assert!(lunch.options().iter().all(|o| o.enabled));
}

#[test]
fn all_options_are_on_offer_when_none_is_disabled() {
    let slot = item("i", "Dinner", "a", vec![option("a", "A", true), option("b", "B", true)]);
    assert_eq!(names(&slot.options()), vec!["A", "B"]);
}

#[test]
fn no_option_is_on_offer_when_all_are_disabled() {
    let slot = item("i", "Dinner", "a", vec![option("a", "A", false), option("b", "B", false)]);
    assert!(slot.options().is_empty());
    let empty = item("i", "Dinner", "a", vec![]);
    assert!(empty.options().is_empty());
}

#[test]
fn a_dish_is_found_among_all_options() {
    let lunch = lunch();
    assert_eq!(lunch.get_dish("dish/c").unwrap().name, "Salad");
    assert_eq!(lunch.get_dish("dish/x").unwrap().name, "Stew");
    assert!(lunch.get_dish("dish/z").is_none());
    assert!(lunch.get_dish("").is_none());
}

#[test]
fn the_first_of_two_options_with_one_dish_is_found() {
    let slot = item(
        "i",
        "Dinner",
        "a",
        vec![option("b", "First", true), option("a", "Second", true), option("a", "Third", true)],
    );
    assert_eq!(slot.get_dish("a").unwrap().name, "Second");
    assert_eq!(slot.get_selected_option().unwrap().name, "Second");
}

#[test]
fn the_selected_option_is_the_one_with_the_current_dish() {
    assert_eq!(lunch().get_selected_option().unwrap().name, "Pasta");
    let disabled = item("i", "Dinner", "x", vec![option("a", "A", true), option("x", "X", false)]);
    assert_eq!(disabled.get_selected_option().unwrap().name, "X");
}

#[test]
fn no_option_is_selected_when_none_has_the_current_dish() {
    let slot = item("i", "Dinner", "zzz", vec![option("a", "A", true)]);
    assert!(slot.get_selected_option().is_none());
    let empty = item("i", "Dinner", "a", vec![]);
    assert!(empty.get_selected_option().is_none());
}

#[test]
fn places_on_offer_skip_disabled_options() {
    let lunch = lunch();
    assert_eq!(lunch.offered_position("dish/a"), Some(0));
    assert_eq!(lunch.offered_position("dish/b"), Some(1));
    assert_eq!(lunch.offered_position("dish/c"), Some(2));
    assert_eq!(lunch.offered_position("dish/x"), None);
    assert_eq!(lunch.offered_position("dish/z"), None);
}

#[test]
fn meal_slots_and_their_dishes_are_found_by_identifier() {
    let day = day(vec![lunch(), item("item/2", "Dinner", "d", vec![option("d", "Rice", true)])]);
    assert_eq!(day.get_dish_item("item/2").unwrap().meal_type.name, "Dinner");
    assert_eq!(day.get_dish_item("item/1").unwrap().meal_type.name, "Lunch");
    assert!(day.get_dish_item("item/3").is_none());
    assert_eq!(day.get_dish("item/1", "dish/c").unwrap().name, "Salad");
    assert_eq!(day.get_dish("item/2", "d").unwrap().name, "Rice");
    assert!(day.get_dish("item/2", "dish/c").is_none());
    assert!(day.get_dish("item/3", "d").is_none());
}

#[test]
fn the_summary_lists_offered_options_and_marks_the_current_one() {
    let day = day(vec![lunch(), item("item/2", "Dinner", "q", vec![option("d", "Rice", true)])]);
    assert_eq!(
        day.debug_options(),
        "Lunch\n  [ ] Soup\n  [*] Pasta\n  [ ] Salad\nDinner\n  [ ] Rice\n"
    );
}

#[test]
fn the_summary_of_an_empty_day_is_empty() {
    assert_eq!(day(vec![]).debug_options(), "");
    assert_eq!(day(vec![item("i", "Tea", "a", vec![])]).debug_options(), "Tea\n");
}

#[test]
fn the_summary_marks_an_option_without_dish_when_none_is_selected() {
    let slot = item("i", "Tea", "nothing", vec![option("", "Plain", true), option("a", "A", true)]);
    assert_eq!(day(vec![slot]).debug_options(), "Tea\n  [*] Plain\n  [ ] A\n");
}

#[test]
fn missing_ingredients_are_asked_for_in_order_and_attached() {
    let mut known = option("k", "Known", true);
    known.ingredients = Some(DishSizeIngredients { ingredients: vec!["salt".to_string()] });
    let mut day = day(vec![
        item("1", "Lunch", "k", vec![known, option("off", "Off", false), option("m", "M", true)]),
        item("2", "Dinner", "n", vec![option("n", "N", true)]),
    ]);
    assert_eq!(day.next_missing_ingredients(), Some((0, 2)));
    assert!(day.attach_ingredients(0, 2, DishSizeIngredients { ingredients: vec![] }));
    assert_eq!(day.next_missing_ingredients(), Some((1, 0)));
    let rice = DishSizeIngredients { ingredients: vec!["rice".to_string(), "oil".to_string()] };
    assert!(day.attach_ingredients(1, 0, rice));
    assert_eq!(day.next_missing_ingredients(), None);
    let members = &day.diet_elements.members;
    assert_eq!(members[1].options[0].ingredients.as_ref().unwrap().ingredients, vec!["rice", "oil"]);
    assert_eq!(members[0].options[0].ingredients.as_ref().unwrap().ingredients, vec!["salt"]);
    assert!(members[0].options[1].ingredients.is_none());
    assert_eq!(members[1].options[0].name, "N");
}

#[test]
fn ingredients_are_not_attached_where_there_is_no_option() {
    let mut day = day(vec![item("1", "Lunch", "a", vec![option("a", "A", true)])]);
    assert!(!day.attach_ingredients(1, 0, DishSizeIngredients { ingredients: vec![] }));
    assert!(!day.attach_ingredients(0, 1, DishSizeIngredients { ingredients: vec![] }));
    assert!(day.diet_elements.members[0].options[0].ingredients.is_none());
    assert_eq!(day.next_missing_ingredients(), Some((0, 0)));
}

#[test]
fn a_new_list_of_changes_is_empty() {
    assert!(ChangeMenuRequest::default().items.is_empty());
}
