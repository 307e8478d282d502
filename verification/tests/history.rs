use powermeal_ai_choice::date::Date;
use powermeal_ai_choice::date::MIN_DAYS;
use powermeal_ai_choice::diets::Diet;
use powermeal_ai_choice::diets::DietsList;
use powermeal_ai_choice::history::day_label;
use powermeal_ai_choice::history::empty_history;
use powermeal_ai_choice::history::fetch_historical_orders;
use powermeal_ai_choice::history::record_history_day;
use powermeal_ai_choice::history::HISTORY_DAYS;
use powermeal_ai_choice::menu::CalendarDayItems;
use powermeal_ai_choice::menu::DietElements;
use powermeal_ai_choice::menu::Dish;
use powermeal_ai_choice::menu::DishItem;
use powermeal_ai_choice::menu::DishSize;
use powermeal_ai_choice::menu::MealType;

fn june(d: u32) -> Date {
    Date::from_ymd(2025, 6, d).unwrap()
}

fn day(marker: &str) -> CalendarDayItems {
    CalendarDayItems {
        diet_elements: DietElements {
            members: vec![DishItem {
                id: marker.to_string(),
                options: vec![],
                meal_type: MealType { name: "Lunch".to_string() },
                dish_size: DishSize { dish: Dish { id: "d".to_string() } },
            }],
        },
    }
}

#[test]
fn days_are_labelled_by_their_distance() {
    assert_eq!(day_label(1), "yesterday");
    assert_eq!(day_label(2), "2 days ago");
    assert_eq!(day_label(7), "7 days ago");
    assert_eq!(day_label(0), "0 days ago");
    assert_eq!(day_label(10), "10 days ago");
    assert_eq!(day_label(u32::MAX), "4294967295 days ago");
}

#[test]
fn a_new_history_is_empty() {
    assert!(empty_history().is_empty());
}

#[test]
fn days_are_recorded_in_the_order_given() {
    let mut history = empty_history();
    record_history_day(&mut history, 3, day("three"));
    record_history_day(&mut history, 2, day("two"));
    record_history_day(&mut history, 1, day("one"));
    let labels: Vec<&str> = history.keys().map(|k| k.as_str()).collect();
    assert_eq!(labels, vec!["3 days ago", "2 days ago", "yesterday"]);
    assert_eq!(history["yesterday"].diet_elements.members[0].id, "one");
    assert_eq!(history.get_index(0).unwrap().1.diet_elements.members[0].id, "three");
}

#[test]
fn a_day_recorded_again_keeps_its_place_and_takes_the_new_menu() {
    let mut history = empty_history();
    record_history_day(&mut history, 2, day("old"));
    record_history_day(&mut history, 1, day("one"));
    record_history_day(&mut history, 2, day("new"));
    let labels: Vec<&str> = history.keys().map(|k| k.as_str()).collect();
    assert_eq!(labels, vec!["2 days ago", "yesterday"]);
    assert_eq!(history["2 days ago"].diet_elements.members[0].id, "new");
}

#[test]
fn the_history_is_planned_oldest_first_with_the_diet_of_each_day() {
    let diets = DietsList {
        members: vec![
            Diet { id: 5, first_delivery_date: june(1), last_delivery_date: june(4) },
            Diet { id: 6, first_delivery_date: june(4), last_delivery_date: june(6) },
        ],
    };
    assert_eq!(HISTORY_DAYS, 7);
    let plan = fetch_historical_orders(&diets, &june(8), HISTORY_DAYS).unwrap();
    let seen: Vec<(u32, Date, Option<i64>)> =
        plan.iter().map(|d| (d.days_ago, d.date, d.diet_id)).collect();
    assert_eq!(
        seen,
        vec![
            (7, june(1), Some(5)),
            (6, june(2), Some(5)),
            (5, june(3), Some(5)),
            (4, june(4), Some(5)),
            (3, june(5), Some(6)),
            (2, june(6), Some(6)),
            (1, june(7), None),
        ]
    );
}

#[test]
fn a_history_of_no_days_is_planned_empty() {
    let diets = DietsList { members: vec![] };
    assert!(fetch_historical_orders(&diets, &june(8), 0).unwrap().is_empty());
}

#[test]
fn no_history_is_planned_before_the_first_day() {
    let diets = DietsList { members: vec![] };
    let early = Date::from_days(MIN_DAYS + 6).unwrap();
    assert!(fetch_historical_orders(&diets, &early, 7).is_none());
    let plan = fetch_historical_orders(&diets, &early, 6).unwrap();
    assert_eq!(plan.len(), 6);
    assert_eq!(plan[0].date, Date::from_days(MIN_DAYS).unwrap());
    assert_eq!(plan[0].diet_id, None);
}
