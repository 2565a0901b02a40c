use chrono::{Datelike, NaiveDate};
use recipes::weekplan::{
    beginning_of_week, end_of_week, fill_week, pick_recipe, select_days, TaggedRecipe, WeekplanEntry,
};

fn day(y: i32, m: u32, d: u32) -> i32 {
    NaiveDate::from_ymd_opt(y, m, d).unwrap().num_days_from_ce()
}

fn recipe(id: i64, tags: &[&str]) -> TaggedRecipe {
    TaggedRecipe { id, tags: tags.iter().map(|t| t.to_string()).collect() }
}

fn tags(t: &[&str]) -> Vec<String> {
    t.iter().map(|t| t.to_string()).collect()
}

fn meal(date: i32, recipe_id: i64) -> WeekplanEntry {
    WeekplanEntry { id: 1, user_id: 5, date, recipe_id, portions: 2 }
}

#[test]
fn week_runs_monday_to_sunday() {
    // 10 January 2024 is a Wednesday
    assert_eq!(beginning_of_week(day(2024, 1, 10)), day(2024, 1, 8));
    assert_eq!(end_of_week(day(2024, 1, 10)), day(2024, 1, 14));
    assert_eq!(beginning_of_week(day(2024, 1, 8)), day(2024, 1, 8));
    assert_eq!(beginning_of_week(day(2024, 1, 14)), day(2024, 1, 8));
    assert_eq!(beginning_of_week(1), 1);
}

#[test]
fn chosen_days_filter_entries() {
    let entries = vec![meal(day(2024, 1, 8), 1), meal(day(2024, 1, 10), 2), meal(day(2024, 1, 14), 3)];
    let kept = select_days(&entries, &Some(vec![0, 6]));
    assert_eq!(kept, vec![entries[0], entries[2]]);
    assert_eq!(select_days(&entries, &None), entries);
    assert!(select_days(&entries, &Some(vec![])).is_empty());
}

#[test]
fn pick_needs_every_tag() {
    let recipes = vec![recipe(1, &["quick"]), recipe(2, &["quick", "veggie"]), recipe(3, &["veggie"])];
    assert_eq!(pick_recipe(&recipes, &tags(&["quick", "veggie"]), &vec![], 0), Some(2));
    assert_eq!(pick_recipe(&recipes, &tags(&["quick", "veggie"]), &vec![], 7), Some(2));
    assert_eq!(pick_recipe(&recipes, &tags(&["quick"]), &vec![], 1), Some(2));
    assert_eq!(pick_recipe(&recipes, &tags(&["quick"]), &vec![], 2), Some(1));
    assert_eq!(pick_recipe(&recipes, &tags(&["spicy"]), &vec![], 0), None);
    assert_eq!(pick_recipe(&recipes, &tags(&[]), &vec![], 2), Some(3));
}

#[test]
fn pick_skips_used_recipes() {
    let recipes = vec![recipe(1, &["quick"]), recipe(2, &["quick"])];
    assert_eq!(pick_recipe(&recipes, &tags(&["quick"]), &vec![1], 0), Some(2));
    assert_eq!(pick_recipe(&recipes, &tags(&["quick"]), &vec![1, 2], 0), None);
}

#[test]
fn fill_week_uses_free_days_and_no_recipe_twice() {
    let monday = day(2024, 1, 8);
    let plan = vec![meal(monday + 2, 3)];
    let recipes = vec![recipe(1, &["x"]), recipe(2, &["x"]), recipe(3, &["x"]), recipe(4, &["x"])];
    let added = fill_week(monday + 4, 5, &plan, &recipes, &tags(&["x"]), &vec![0; 7]);
    // Monday takes 1, Tuesday 2, Wednesday is planned, Thursday 4, then none is left.
    assert_eq!(added.len(), 3);
    assert_eq!(added[0], WeekplanEntry { id: 0, user_id: 5, date: monday, recipe_id: 1, portions: 2 });
    assert_eq!(added[1].date, monday + 1);
    assert_eq!(added[1].recipe_id, 2);
    assert_eq!(added[2].date, monday + 3);
    assert_eq!(added[2].recipe_id, 4);
}

#[test]
fn fill_week_follows_draws() {
    let monday = day(2024, 1, 8);
    let recipes: Vec<TaggedRecipe> = (1..=10).map(|i| recipe(i, &[])).collect();
    let added = fill_week(monday, 5, &vec![], &recipes, &vec![], &vec![1, 1, 1, 1, 1, 1, 1]);
    let ids: Vec<i64> = added.iter().map(|e| e.recipe_id).collect();
    assert_eq!(ids, vec![2, 3, 4, 5, 6, 7, 8]);
}

#[test]
fn weeks_before_the_common_era() {
    // day 0 is 31 December of 1 BC, a Sunday
    assert_eq!(beginning_of_week(0), -6);
    assert_eq!(end_of_week(0), 0);
    assert_eq!(beginning_of_week(-7), -13);
    let far = day(-100_000, 3, 1);
    let monday = beginning_of_week(far);
    assert_eq!(NaiveDate::from_num_days_from_ce_opt(monday).unwrap().weekday(), chrono::Weekday::Mon);
    assert!(far - monday < 7 && far >= monday);
}
