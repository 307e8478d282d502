use powermeal_ai_choice::ai::UserAdjustment;
use powermeal_ai_choice::date::Date;
use powermeal_ai_choice::preferences::Preferences;
use powermeal_ai_choice::preferences::MAX_ADJUSTMENTS;

fn adjustment(n: usize) -> UserAdjustment {
    UserAdjustment {
        from: format!("from {n}"),
        to: format!("to {n}"),
        reason: if n % 2 == 0 { None } else { Some(format!("because {n}")) },
        date: Date::from_ymd(2025, 6, 1).unwrap(),
    }
}

fn adjustments(range: std::ops::Range<usize>) -> Vec<UserAdjustment> {
    range.map(adjustment).collect()
}

fn froms(preferences: &Preferences) -> Vec<String> {
    preferences.get_preferences().into_iter().map(|a| a.from).collect()
}

fn expected(range: std::ops::Range<usize>) -> Vec<String> {
    range.map(|n| format!("from {n}")).collect()
}

#[test]
fn a_new_record_keeps_nothing() {
    let preferences = Preferences::default();
    assert!(preferences.get_preferences().is_empty());
    assert_eq!(preferences.next_day_to_check(), None);
    assert_eq!(preferences.token(), None);
}

#[test]
fn adjustments_are_appended_in_order() {
    let mut preferences = Preferences::default();
    preferences.add_new_preferences(adjustments(0..3));
    preferences.add_new_preferences(adjustments(3..5));
    assert_eq!(froms(&preferences), expected(0..5));
    let kept = preferences.get_preferences();
    assert_eq!(kept[1].to, "to 1");
    assert_eq!(kept[1].reason.as_deref(), Some("because 1"));
    assert_eq!(kept[2].reason, None);
    assert_eq!(kept[2].date, Date::from_ymd(2025, 6, 1).unwrap());
}

#[test]
fn exactly_the_cap_is_kept_whole() {
    assert_eq!(MAX_ADJUSTMENTS, 100);
    let mut preferences = Preferences::default();
    preferences.add_new_preferences(adjustments(0..100));
    assert_eq!(froms(&preferences), expected(0..100));
}

#[test]
fn the_oldest_are_dropped_beyond_the_cap() {
    let mut preferences = Preferences::default();
    preferences.add_new_preferences(adjustments(0..98));
    preferences.add_new_preferences(adjustments(98..103));
    assert_eq!(froms(&preferences), expected(3..103));
    preferences.add_new_preferences(adjustments(103..104));
    assert_eq!(froms(&preferences), expected(4..104));
}

#[test]
fn more_than_the_cap_at_once_keeps_the_last_of_them() {
    let mut preferences = Preferences::default();
    preferences.add_new_preferences(adjustments(0..10));
    preferences.add_new_preferences(adjustments(10..260));
    assert_eq!(froms(&preferences), expected(160..260));
}

#[test]
fn a_stored_record_over_the_cap_is_cut_by_the_next_append() {
    let mut preferences = Preferences::new(adjustments(0..150), None, None);
    assert_eq!(preferences.get_preferences().len(), 150);
    preferences.add_new_preferences(vec![]);
    assert_eq!(froms(&preferences), expected(50..150));
}

#[test]
fn the_day_and_the_token_are_stored_and_read() {
    let mut preferences = Preferences::default();
    let day = Date::from_ymd(2025, 6, 4).unwrap();
    preferences.set_next_day_to_check(day);
    preferences.save_token("secret");
    preferences.add_new_preferences(adjustments(0..1));
    assert_eq!(preferences.next_day_to_check(), Some(day));
    assert_eq!(preferences.token(), Some("secret".to_string()));
    preferences.save_token("other");
    assert_eq!(preferences.token(), Some("other".to_string()));
    assert_eq!(froms(&preferences), expected(0..1));
}

#[test]
fn a_record_is_taken_apart_as_it_was_put_together() {
    let day = Date::from_ymd(2025, 6, 4).unwrap();
    let preferences = Preferences::new(adjustments(0..2), Some(day), Some("t".to_string()));
    assert_eq!(preferences.next_day_to_check(), Some(day));
    let (kept, next, token) = preferences.into_parts();
    assert_eq!(kept.len(), 2);
    assert_eq!(kept[1].from, "from 1");
    assert_eq!(next, Some(day));
    assert_eq!(token, Some("t".to_string()));
}
