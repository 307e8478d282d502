use powermeal_ai_choice::menu::CalendarDayItems;
use powermeal_ai_choice::menu::DietElements;
use powermeal_ai_choice::menu::Dish;
use powermeal_ai_choice::menu::DishItem;
use powermeal_ai_choice::menu::DishSize;
use powermeal_ai_choice::menu::MealType;
use powermeal_ai_choice::menu::MenuDietOption;
use powermeal_ai_choice::stats::count_option;
use powermeal_ai_choice::stats::dish_counts;
use powermeal_ai_choice::stats::DishCount;

fn option(id: &str, name: &str, enabled: bool) -> MenuDietOption {
    MenuDietOption {
        name: name.to_string(),
        ingredients: None,
        enabled,
        dish: Dish { id: id.to_string() },
        dish_size_id: 1,
    }
}

fn day(slots: Vec<Vec<MenuDietOption>>) -> CalendarDayItems {
    CalendarDayItems {
        diet_elements: DietElements {
            members: slots
                .into_iter()
                .map(|options| DishItem {
                    id: "slot".to_string(),
                    options,
                    meal_type: MealType { name: "Meal".to_string() },
                    dish_size: DishSize { dish: Dish { id: "a".to_string() } },
                })
                .collect(),
        },
    }
}

fn seen(counts: &[DishCount]) -> Vec<(&str, &str, u64)> {
    counts.iter().map(|c| (c.id.as_str(), c.name.as_str(), c.count)).collect()
}

#[test]
fn dishes_are_counted_over_all_days_in_order_of_first_sight() {
    let days = vec![
        day(vec![
            vec![option("a", "Soup", true), option("b", "Stew", false)],
            vec![option("a", "Soup again", true)],
        ]),
        day(vec![]),
        day(vec![vec![], vec![option("c", "Rice", true), option("b", "Stew", true)]]),
        day(vec![vec![option("a", "Soup", true)]]),
    ];
    assert_eq!(
        seen(&dish_counts(&days)),
        vec![("a", "Soup", 3), ("b", "Stew", 2), ("c", "Rice", 1)]
    );
}

#[test]
fn nothing_is_counted_where_there_is_nothing() {
    assert!(dish_counts(&vec![]).is_empty());
    assert!(dish_counts(&vec![day(vec![vec![]])]).is_empty());
}

#[test]
fn a_count_stays_at_the_most_a_number_can_hold() {
    let mut tally =
        vec![DishCount { id: "a".to_string(), name: "Soup".to_string(), count: u64::MAX - 1 }];
    count_option(&mut tally, &option("a", "Other", true));
    assert_eq!(seen(&tally), vec![("a", "Soup", u64::MAX)]);
    count_option(&mut tally, &option("a", "Other", true));
    assert_eq!(seen(&tally), vec![("a", "Soup", u64::MAX)]);
    count_option(&mut tally, &option("b", "New", true));
    assert_eq!(seen(&tally), vec![("a", "Soup", u64::MAX), ("b", "New", 1)]);
}
