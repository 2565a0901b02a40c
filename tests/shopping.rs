use recipes::bring::{
    amount_str, author_of, calc_amount, effective_portions, recipe_bring, recipe_figures_fit_exec,
    recipe_items, weekplan_bring, weekplan_items_text,
};
use recipes::shopping::{consolidate, consolidate_weekplan, ShoppingGroup, NO_UNIT};
use recipes::units::{unit_to_str, Ingredient, IngredientUnit, Reference, StepIngredient, Units};
use recipes::weekplan::WeekplanEntry;

fn ingredient(id: i64, name: &str) -> Ingredient {
    Ingredient { id, name: name.to_string(), reference: Reference::G, carbs: 0, fat: 0, proteins: 0, alc: 0 }
}

fn unit(id: i64, identifier: Units, base_value: u32) -> IngredientUnit {
    IngredientUnit { id, ingredient_id: 1, identifier, base_value }
}

fn line(ingredient_id: i64, amount: Option<i32>, unit: Option<IngredientUnit>, note: Option<&str>) -> StepIngredient {
    StepIngredient { ingredient_id, amount, unit, annotation: note.map(|n| n.to_string()) }
}

fn group(amount: i128, unit: Option<IngredientUnit>) -> ShoppingGroup {
    ShoppingGroup {
        ingredient_id: 1,
        bucket: unit.map(|u| u.id).unwrap_or(NO_UNIT),
        name: "Sugar".to_string(),
        unit,
        amount,
        notes: vec![],
    }
}

#[test]
fn spoon_and_grams_share_a_group() {
    let sugar = ingredient(1, "Sugar");
    let usages = vec![
        (line(1, Some(200), Some(unit(4, Units::TBSP, 1500)), None), sugar.clone()),
        (line(1, Some(3_000), None, None), sugar),
    ];
    let groups = consolidate(&usages, 100);
    assert_eq!(groups.len(), 1);
    assert_eq!(groups[0].bucket, NO_UNIT);
    assert!(groups[0].unit.is_none());
    assert_eq!(groups[0].amount, 60_000_000);
    assert_eq!(amount_str(groups[0].amount, &groups[0].unit), "60g");
}

#[test]
fn pieces_stay_apart_from_grams() {
    let egg = ingredient(2, "Egg");
    let piece = unit(7, Units::PCS, 5_000);
    let usages = vec![
        (line(2, Some(300), Some(piece), None), egg.clone()),
        (line(2, Some(5_000), None, None), egg),
    ];
    let groups = consolidate(&usages, 100);
    assert_eq!(groups.len(), 2);
    assert_eq!(groups[0].bucket, 7);
    assert_eq!(groups[0].unit, Some(piece));
    assert_eq!(groups[0].amount, 3_000_000);
    assert_eq!(groups[1].bucket, NO_UNIT);
    assert_eq!(groups[1].amount, 50_000_000);
    assert_eq!(amount_str(groups[0].amount, &groups[0].unit), "3.00 Stück");
    assert_eq!(amount_str(groups[1].amount, &groups[1].unit), "50g");
}

#[test]
fn doubled_scale_doubles_amounts() {
    let sugar = ingredient(1, "Sugar");
    let egg = ingredient(2, "Egg");
    let usages = vec![
        (line(1, Some(200), Some(unit(4, Units::TSP, 500)), None), sugar.clone()),
        (line(2, Some(300), Some(unit(7, Units::PCS, 5_000)), None), egg),
        (line(1, Some(1_234), None, None), sugar),
    ];
    let single = consolidate(&usages, 100);
    let double = consolidate(&usages, 200);
    assert_eq!(single.len(), double.len());
    for (a, b) in single.iter().zip(double.iter()) {
        assert_eq!(a.bucket, b.bucket);
        assert_eq!(2 * a.amount, b.amount);
    }
}

#[test]
fn zero_and_negative_amounts_show_empty() {
    assert_eq!(amount_str(0, &None), "");
    assert_eq!(amount_str(-5, &Some(unit(7, Units::PCS, 5_000))), "");
    assert_eq!(calc_amount(0, 100, &None), "");
    assert_eq!(calc_amount(-1_000_000, 200, &None), "");
}

#[test]
fn zero_portions_show_empty() {
    let piece = unit(7, Units::PCS, 5_000);
    assert_eq!(calc_amount(60_000_000, 0, &None), "");
    assert_eq!(calc_amount(3_000_000, 0, &Some(piece)), "");
}

#[test]
fn scaled_amount_decides_emptiness() {
    // a negative amount taken a negative number of times is a positive amount
    assert_eq!(calc_amount(-1_000_000, -200, &None), "2.00g");
    assert_eq!(calc_amount(1_000_000, -200, &None), "");
}

#[test]
fn to_taste_lines_keep_an_empty_item() {
    let salt = ingredient(3, "Salt");
    let usages = vec![(line(3, None, None, Some("to taste")), salt)];
    let list = recipe_bring("Soup".to_string(), "Ann".to_string(), &usages, 100).unwrap();
    assert_eq!(list.items.len(), 1);
    assert_eq!(list.items[0].item_id, "Salt");
    assert_eq!(list.items[0].spec, "");
}

#[test]
fn notes_are_collected_per_group() {
    let sugar = ingredient(1, "Sugar");
    let usages = vec![
        (line(1, Some(100), None, Some("fine")), sugar.clone()),
        (line(1, None, None, None), sugar.clone()),
        (line(1, Some(100), Some(unit(4, Units::TBSP, 1500)), Some("brown")), sugar),
    ];
    let groups = consolidate(&usages, 100);
    assert_eq!(groups.len(), 1);
    assert_eq!(groups[0].notes, vec!["fine".to_string(), "brown".to_string()]);
    assert_eq!(groups[0].amount, 100 * 100 * 100 + 100 * 1500 * 100);
}

#[test]
fn groups_keep_first_appearance_order() {
    let usages = vec![
        (line(5, Some(100), None, None), ingredient(5, "Milk")),
        (line(1, Some(100), None, None), ingredient(1, "Sugar")),
        (line(5, Some(100), None, None), ingredient(5, "Milk")),
    ];
    let groups = consolidate(&usages, 100);
    let names: Vec<&str> = groups.iter().map(|g| g.name.as_str()).collect();
    assert_eq!(names, vec!["Milk", "Sugar"]);
    assert_eq!(groups[0].amount, 2_000_000);
}

#[test]
fn recipe_amounts_show_two_decimals() {
    assert_eq!(calc_amount(60_000_000, 100, &None), "60.00g");
    assert_eq!(calc_amount(60_000_000, 150, &None), "90.00g");
    assert_eq!(calc_amount(1_234_567, 100, &None), "1.23g");
}

#[test]
fn recipe_pieces_scale_with_portions_once() {
    // 3 pieces for 2 portions show as 6 pieces, without a weight
    let piece = unit(7, Units::PCS, 5_000);
    assert_eq!(calc_amount(3_000_000, 200, &Some(piece)), "6.00 Stück");
    assert_eq!(calc_amount(3_000_000, 100, &Some(piece)), "3.00 Stück");
}

#[test]
fn recipe_list_end_to_end() {
    let sugar = ingredient(1, "Sugar");
    let egg = ingredient(2, "Egg");
    let usages = vec![
        (line(1, Some(200), Some(unit(4, Units::TBSP, 1500)), None), sugar.clone()),
        (line(2, Some(200), Some(unit(7, Units::PCS, 6_000)), None), egg),
        (line(1, Some(3_000), None, None), sugar),
    ];
    let list = recipe_bring("Cake".to_string(), "Ann".to_string(), &usages, 100).unwrap();
    assert_eq!(list.name, "Cake");
    assert_eq!(list.author, "Ann");
    assert_eq!(list.items.len(), 2);
    assert_eq!(list.items[0].item_id, "Sugar");
    assert_eq!(list.items[0].spec, "60.00g");
    assert_eq!(list.items[1].item_id, "Egg");
    assert_eq!(list.items[1].spec, "2.00 Stück");
}

#[test]
fn weekplan_list_scales_by_entry_portions() {
    let sugar = ingredient(1, "Sugar");
    let egg = ingredient(2, "Egg");
    let lines = vec![
        (10, line(1, Some(1_000), None, None), sugar.clone()),
        (20, line(1, Some(500), None, None), sugar),
        (20, line(2, Some(100), Some(unit(7, Units::PCS, 5_000)), None), egg),
    ];
    let entries = vec![
        WeekplanEntry { id: 1, user_id: 1, date: 738_000, recipe_id: 10, portions: 2 },
        WeekplanEntry { id: 2, user_id: 1, date: 738_001, recipe_id: 20, portions: 4 },
        WeekplanEntry { id: 3, user_id: 1, date: 738_002, recipe_id: 10, portions: 1 },
    ];
    let groups = consolidate_weekplan(&entries, &lines);
    assert_eq!(groups.len(), 2);
    // sugar: 10 g * 2 + 5 g * 4 + 10 g * 1 = 50 g
    assert_eq!(groups[0].amount, 50_000_000);
    assert_eq!(groups[1].amount, 4_000_000);
    let list = weekplan_bring("Ann".to_string(), &entries, &lines);
    assert_eq!(list.name, "Weekplan");
    assert_eq!(list.items[0].spec, "50g");
    assert_eq!(list.items[1].item_id, "Egg");
    assert_eq!(list.items[1].spec, "4.00 Stück");
    assert_eq!(weekplan_items_text(&groups).len(), 2);
}

#[test]
fn doubled_weekplan_portions_double_amounts() {
    let sugar = ingredient(1, "Sugar");
    let egg = ingredient(2, "Egg");
    let lines = vec![
        (10, line(1, Some(1_000), None, None), sugar.clone()),
        (20, line(1, Some(200), Some(unit(4, Units::TBSP, 1500)), None), sugar),
        (20, line(2, Some(100), Some(unit(7, Units::PCS, 5_000)), None), egg),
    ];
    let entries = vec![
        WeekplanEntry { id: 1, user_id: 1, date: 738_000, recipe_id: 10, portions: 2 },
        WeekplanEntry { id: 2, user_id: 1, date: 738_001, recipe_id: 20, portions: 3 },
    ];
    let doubled: Vec<WeekplanEntry> =
        entries.iter().map(|e| WeekplanEntry { portions: 2 * e.portions, ..*e }).collect();
    let single = consolidate_weekplan(&entries, &lines);
    let double = consolidate_weekplan(&doubled, &lines);
    assert_eq!(single.len(), double.len());
    for (a, b) in single.iter().zip(double.iter()) {
        assert_eq!((a.ingredient_id, a.bucket), (b.ingredient_id, b.bucket));
        assert_eq!(2 * a.amount, b.amount);
    }
}

#[test]
fn weekplan_grams_round_to_whole() {
    assert_eq!(amount_str(12_500_000, &None), "12g");
    assert_eq!(amount_str(13_500_000, &None), "14g");
    assert_eq!(amount_str(12_600_000, &None), "13g");
}

#[test]
fn oversized_figures_give_no_list() {
    let huge = group(i128::MAX / 2, Some(unit(7, Units::PCS, 5_000)));
    assert!(!recipe_figures_fit_exec(huge.amount, 100));
    assert!(recipe_figures_fit_exec(huge.amount, 1));
    assert!(recipe_items(&vec![huge.clone()], 100).is_none());
    assert_eq!(weekplan_items_text(&vec![huge]).len(), 1);
    let fine = group(1_000_000, None);
    assert!(recipe_items(&vec![fine], 100).is_some());
}

#[test]
fn portions_default_and_fallback() {
    assert_eq!(effective_portions(None, 4), 100);
    assert_eq!(effective_portions(Some(-1), 4), 400);
    assert_eq!(effective_portions(Some(250), 4), 250);
    assert_eq!(effective_portions(Some(0), 4), 0);
}

#[test]
fn author_prefers_name_over_email() {
    assert_eq!(author_of(Some("Ann".to_string()), "ann@example.org".to_string()), "Ann");
    assert_eq!(author_of(None, "ann@example.org".to_string()), "ann@example.org");
}

#[test]
fn unit_names_are_localized() {
    assert_eq!(unit_to_str(&Units::PCS), "Stück");
    assert_eq!(unit_to_str(&Units::TBSP), "Esslöffel");
    assert_eq!(unit_to_str(&Units::TSP), "Teelöffel");
    assert_eq!(unit_to_str(&Units::SKOSH), "Prise");
    assert_eq!(unit_to_str(&Units::PINCH), "Messerspitze");
}
