use indexmap::IndexMap;
use powermeal_ai_choice::ai::ai_dish_item;
use powermeal_ai_choice::ai::ai_option;
use powermeal_ai_choice::ai::check_response;
use powermeal_ai_choice::ai::find_selection;
use powermeal_ai_choice::ai::first_content;
use powermeal_ai_choice::ai::response_schema;
use powermeal_ai_choice::ai::select_dish;
use powermeal_ai_choice::ai::selected_options;
use powermeal_ai_choice::ai::AiResponse;
use powermeal_ai_choice::ai::OracleError;
use powermeal_ai_choice::ai::ResponseItem;
use powermeal_ai_choice::ai::UserAdjustment;
use powermeal_ai_choice::date::Date;
use powermeal_ai_choice::history::empty_history;
use powermeal_ai_choice::history::record_history_day;
use powermeal_ai_choice::menu::CalendarDayItems;
use powermeal_ai_choice::menu::DietElements;
use powermeal_ai_choice::menu::Dish;
use powermeal_ai_choice::menu::DishItem;
use powermeal_ai_choice::menu::DishSize;
use powermeal_ai_choice::menu::DishSizeIngredients;
use powermeal_ai_choice::menu::MealType;
use powermeal_ai_choice::menu::MenuDietOption;

fn option(id: &str, name: &str, enabled: bool, ingredients: Option<Vec<&str>>) -> MenuDietOption {
    MenuDietOption {
        name: name.to_string(),
        ingredients: ingredients.map(|list| DishSizeIngredients {
            ingredients: list.into_iter().map(|i| i.to_string()).collect(),
        }),
        enabled,
        dish: Dish { id: id.to_string() },
        dish_size_id: 1,
    }
}

fn item(id: &str, meal: &str, current: &str, options: Vec<MenuDietOption>) -> DishItem {
    DishItem {
        id: id.to_string(),
        options,
        meal_type: MealType { name: meal.to_string() },
        dish_size: DishSize { dish: Dish { id: current.to_string() } },
    }
}

fn day(members: Vec<DishItem>) -> CalendarDayItems {
    CalendarDayItems { diet_elements: DietElements { members } }
}

fn three_items() -> Vec<DishItem> {
    vec![
        item(
            "item/1",
            "Breakfast",
            "a",
            vec![
                option("a", "Porridge", true, Some(vec!["oats", "milk"])),
                option("b", "Eggs", true, None),
                option("c", "Toast", false, Some(vec!["bread"])),
            ],
        ),
        item("item/2", "Lunch", "d", vec![option("d", "Soup", true, Some(vec![]))]),
        item(
            "item/3",
            "Dinner",
            "f",
            vec![option("e", "Rice", true, None), option("f", "Fish", true, None)],
        ),
    ]
}

fn answer(dish: &str) -> ResponseItem {
    ResponseItem { dish_id: dish.to_string(), reason: format!("{dish} is best"), analysis: vec![] }
}

fn response(selections: Vec<(&str, &str)>) -> AiResponse {
    AiResponse {
        reasoning: vec!["thinking".to_string()],
        selections: selections.into_iter().map(|(i, d)| (i.to_string(), answer(d))).collect(),
    }
}

fn june(d: u32) -> Date {
    Date::from_ymd(2025, 6, d).unwrap()
}

#[test]
fn an_option_is_told_with_name_ingredients_and_dish() {
    let told = ai_option(&option("a", "Porridge", true, Some(vec!["oats", "milk"])));
    assert_eq!(told.name, "Porridge");
    assert_eq!(told.id, "a");
    assert_eq!(told.ingredients, vec!["oats", "milk"]);
    let unknown = ai_option(&option("b", "Eggs", false, None));
    assert_eq!(unknown.name, "Eggs");
    assert!(unknown.ingredients.is_empty());
}

#[test]
fn a_meal_slot_is_told_with_its_options_on_offer() {
    let told = ai_dish_item(&three_items()[0]);
    assert_eq!(told.id, "item/1");
    assert_eq!(told.meal_type, "Breakfast");
    let names: Vec<&str> = told.options.iter().map(|o| o.name.as_str()).collect();
    assert_eq!(names, vec!["Porridge", "Eggs"]);
    let dishes: Vec<&str> = told.options.iter().map(|o| o.id.as_str()).collect();
    assert_eq!(dishes, vec!["a", "b"]);
}

#[test]
fn the_schema_lists_every_meal_slot_with_its_dishes_on_offer() {
    let schema = response_schema(&three_items());
    assert_eq!(schema.name, "meal_selection");
    assert!(schema.strict);
    assert_eq!(schema.reasoning_description, "Think about what the user might like and why");
    assert_eq!(
        schema.analysis_description,
        "Analyze available options and argue how good it is for the user"
    );
    assert_eq!(
        schema.reason_description,
        "Justification why this meal should fit user preferences"
    );
    let listed: Vec<(&str, Vec<&str>)> = schema
        .items
        .iter()
        .map(|i| (i.dish_item.as_str(), i.dishes.iter().map(|d| d.as_str()).collect()))
        .collect();
    assert_eq!(
        listed,
        vec![("item/1", vec!["a", "b"]), ("item/2", vec!["d"]), ("item/3", vec!["e", "f"])]
    );
}

#[test]
fn the_schema_of_no_meal_slots_lists_none() {
    assert!(response_schema(&vec![]).items.is_empty());
}

#[test]
fn the_selected_options_of_a_day_are_told() {
    let told = selected_options(&day(three_items())).unwrap();
    let names: Vec<&str> = told.iter().map(|o| o.name.as_str()).collect();
    assert_eq!(names, vec!["Porridge", "Soup", "Fish"]);
    assert_eq!(told[0].ingredients, vec!["oats", "milk"]);
}

#[test]
fn a_day_with_a_slot_set_to_nothing_has_no_selected_options() {
    let mut items = three_items();
    items[1].dish_size.dish.id = "gone".to_string();
    items[2].dish_size.dish.id = "gone".to_string();
    assert_eq!(selected_options(&day(items)).unwrap_err(), 1);
}

#[test]
fn the_question_holds_slots_history_adjustments_and_date() {
    let mut history = empty_history();
    record_history_day(&mut history, 2, day(vec![three_items().remove(2)]));
    record_history_day(&mut history, 1, day(three_items()));
    let changes = vec![UserAdjustment {
        from: "Soup".to_string(),
        to: "Rice".to_string(),
        reason: Some("too salty".to_string()),
        date: june(1),
    }];
    let call = select_dish(june(3), &three_items(), &history, changes).unwrap();
    assert_eq!(call.model, "gpt-4o-2024-08-06");
    assert_eq!(call.max_tokens, 2048);
    assert_eq!(
        call.instructions,
        "You are personal meal assistant. You have to select meals for the user. Figure out what the user wants to eat from the menu. Use historic data to figure out user preferences. Try not to pick the same meal as the user had in the last days."
    );
    assert_eq!(call.schema.items.len(), 3);
    assert_eq!(call.schema.items[2].dishes, vec!["e", "f"]);
    let question = call.question;
    assert_eq!(question.menu_date, june(3));
    assert_eq!(question.user_changes.len(), 1);
    assert_eq!(question.user_changes[0].reason.as_deref(), Some("too salty"));
    assert_eq!(question.dish_items.len(), 3);
    assert_eq!(question.dish_items[0].options.len(), 2);
    assert_eq!(question.dish_items[1].meal_type, "Lunch");
    let labels: Vec<&str> = question.last_days_choices.keys().map(|k| k.as_str()).collect();
    assert_eq!(labels, vec!["2 days ago", "yesterday"]);
    let older: Vec<&str> =
        question.last_days_choices["2 days ago"].iter().map(|o| o.name.as_str()).collect();
    assert_eq!(older, vec!["Fish"]);
    let yesterday: Vec<&str> =
        question.last_days_choices["yesterday"].iter().map(|o| o.name.as_str()).collect();
    assert_eq!(yesterday, vec!["Porridge", "Soup", "Fish"]);
}

#[test]
fn the_question_without_history_has_no_past_choices() {
    let call = select_dish(june(3), &three_items(), &IndexMap::new(), vec![]).unwrap();
    assert!(call.question.last_days_choices.is_empty());
    assert!(call.question.user_changes.is_empty());
}

#[test]
fn a_history_with_a_slot_set_to_nothing_stops_the_question() {
    let mut broken = three_items();
    broken[2].dish_size.dish.id = "gone".to_string();
    let mut history = empty_history();
    record_history_day(&mut history, 3, day(three_items()));
    record_history_day(&mut history, 2, day(broken));
    record_history_day(&mut history, 1, day(three_items()));
    assert_eq!(
        select_dish(june(3), &three_items(), &history, vec![]).unwrap_err(),
        OracleError::NoSelectedOption { day: 1, dish_item: 2 }
    );
}

#[test]
fn the_content_of_the_first_choice_is_the_answer() {
    let choices = vec![Some("first".to_string()), Some("second".to_string())];
    assert_eq!(first_content(&choices), Ok(&"first".to_string()));
    assert_eq!(first_content(&vec![]), Err(OracleError::NoResponse));
    assert_eq!(first_content(&vec![None, Some("x".to_string())]), Err(OracleError::NoContent));
}

#[test]
fn an_answer_for_every_slot_is_accepted() {
    let parsed = response(vec![("item/3", "e"), ("item/1", "b"), ("item/2", "d")]);
    let accepted = check_response(&three_items(), Some(parsed)).unwrap();
    assert_eq!(accepted.selections.len(), 3);
    assert_eq!(accepted.selections[0].1.dish_id, "e");
    assert_eq!(accepted.reasoning, vec!["thinking"]);
}

#[test]
fn an_answer_that_omits_a_slot_is_rejected() {
    let parsed = response(vec![("item/1", "a"), ("item/3", "f")]);
    assert_eq!(
        check_response(&three_items(), Some(parsed)).unwrap_err(),
        OracleError::MissingSelection { dish_item: 1 }
    );
    let last_missing = response(vec![("item/1", "a"), ("item/2", "d")]);
    assert_eq!(
        check_response(&three_items(), Some(last_missing)).unwrap_err(),
        OracleError::MissingSelection { dish_item: 2 }
    );
    assert_eq!(
        check_response(&three_items(), Some(response(vec![]))).unwrap_err(),
        OracleError::MissingSelection { dish_item: 0 }
    );
}

#[test]
fn an_answer_with_a_dish_that_is_not_on_offer_is_rejected() {
    let disabled = response(vec![("item/1", "c"), ("item/2", "d"), ("item/3", "f")]);
    assert_eq!(
        check_response(&three_items(), Some(disabled)).unwrap_err(),
        OracleError::DishNotOffered { dish_item: 0 }
    );
    let foreign = response(vec![("item/1", "a"), ("item/2", "d"), ("item/3", "a")]);
    assert_eq!(
        check_response(&three_items(), Some(foreign)).unwrap_err(),
        OracleError::DishNotOffered { dish_item: 2 }
    );
}

#[test]
fn an_answer_that_could_not_be_read_is_rejected() {
    assert_eq!(check_response(&three_items(), None).unwrap_err(), OracleError::Malformed);
    assert_eq!(check_response(&vec![], None).unwrap_err(), OracleError::Malformed);
}

#[test]
fn any_answer_is_accepted_for_a_day_without_slots() {
    assert!(check_response(&vec![], Some(response(vec![("item/9", "z")]))).is_ok());
}

#[test]
fn the_first_answer_for_a_slot_counts() {
    let parsed = response(vec![("item/1", "a"), ("item/2", "d"), ("item/1", "b")]);
    assert_eq!(find_selection(&parsed.selections, "item/1"), Some(0));
    assert_eq!(find_selection(&parsed.selections, "item/2"), Some(1));
    assert_eq!(find_selection(&parsed.selections, "item/3"), None);
}
