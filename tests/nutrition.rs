use recipes::decimal::format_fixed;
use recipes::nutrition::{aggregate, normalize, NutritionTotals, CALORIE_EXP, MACRO_EXP};
use recipes::units::{Ingredient, IngredientUnit, Reference, StepIngredient, Units};

fn ingredient(name: &str, carbs: u32, fat: u32, proteins: u32, alc: u32) -> Ingredient {
    Ingredient {
        id: 1,
        name: name.to_string(),
        reference: Reference::G,
        carbs,
        fat,
        proteins,
        alc,
    }
}

fn line(amount: Option<i32>, unit: Option<IngredientUnit>) -> StepIngredient {
    StepIngredient { ingredient_id: 1, amount, unit, annotation: None }
}

fn tablespoon() -> IngredientUnit {
    IngredientUnit { id: 3, ingredient_id: 1, identifier: Units::TBSP, base_value: 1500 }
}

fn calories_of(t: &NutritionTotals) -> i128 {
    41 * t.carbs + 93 * t.fat + 41 * t.proteins + 71 * t.alcohol
}

#[test]
fn normalize_without_unit_keeps_amount() {
    let flour = ingredient("Flour", 7500, 100, 1000, 0);
    // 2.5 g stays 2.5 g: 25_000 ten-thousandths
    assert_eq!(normalize(Some(250), &None, &flour), 25_000);
    assert_eq!(normalize(Some(-40), &None, &flour), -4_000);
}

#[test]
fn normalize_with_unit_scales_by_base_value() {
    let flour = ingredient("Flour", 7500, 100, 1000, 0);
    // 2 tablespoons of 15 g are 30 g
    assert_eq!(normalize(Some(200), &Some(tablespoon()), &flour), 300_000);
}

#[test]
fn normalize_without_amount_is_zero() {
    let flour = ingredient("Flour", 7500, 100, 1000, 0);
    assert_eq!(normalize(None, &Some(tablespoon()), &flour), 0);
    assert_eq!(normalize(None, &None, &flour), 0);
}

#[test]
fn flour_end_to_end() {
    let flour = ingredient("Flour", 7500, 100, 1000, 0);
    let t = aggregate(&vec![(line(Some(20_000), None), flour)]);
    assert_eq!(t.carbs, 15_000_000_000);
    assert_eq!(t.fat, 200_000_000);
    assert_eq!(t.proteins, 2_000_000_000);
    assert_eq!(t.alcohol, 0);
    assert_eq!(t.calories, 715_600_000_000);
    assert_eq!(format_fixed(t.carbs, MACRO_EXP, 0), "150");
    assert_eq!(format_fixed(t.fat, MACRO_EXP, 0), "2");
    assert_eq!(format_fixed(t.proteins, MACRO_EXP, 0), "20");
    assert_eq!(format_fixed(t.calories, CALORIE_EXP, 1), "715.6");
}

#[test]
fn calories_match_final_totals() {
    let flour = ingredient("Flour", 7500, 100, 1000, 0);
    let wine = ingredient("Wine", 260, 0, 7, 1000);
    let butter = ingredient("Butter", 60, 8300, 70, 0);
    let t = aggregate(&vec![
        (line(Some(20_000), None), flour),
        (line(Some(300), Some(tablespoon())), wine),
        (line(None, None), butter.clone()),
        (line(Some(1_250), None), butter),
    ]);
    assert_eq!(t.calories, calories_of(&t));
    assert!(t.alcohol > 0);
}

#[test]
fn aggregation_ignores_order() {
    let flour = ingredient("Flour", 7500, 100, 1000, 0);
    let sugar = ingredient("Sugar", 9980, 0, 0, 0);
    let a = (line(Some(20_000), None), flour);
    let b = (line(Some(200), Some(tablespoon())), sugar);
    let t1 = aggregate(&vec![a.clone(), b.clone()]);
    let t2 = aggregate(&vec![b, a]);
    assert_eq!(t1, t2);
}

#[test]
fn empty_and_to_taste_lines_give_zero() {
    let salt = ingredient("Salt", 0, 0, 0, 0);
    let t = aggregate(&vec![]);
    assert_eq!(t, NutritionTotals { carbs: 0, fat: 0, proteins: 0, alcohol: 0, calories: 0 });
    let t = aggregate(&vec![(line(None, None), salt)]);
    assert_eq!(t.calories, 0);
}
