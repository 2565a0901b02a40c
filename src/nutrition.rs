//! Quantity normalization and nutrition totals of a set of ingredient lines.
//!
//! Quantities are exact fixed-point integers:
//! - a normalized quantity is in ten-thousandths of the reference measure
//!   (amount in hundredths times a base value in hundredths);
//! - a macro total is in units of 10^-8 g (content in hundredths of a gram per
//!   100 times a normalized quantity);
//! - calories are in units of 10^-9 kcal (a macro total times an energy
//!   density given in tenths of a kcal per gram).
use vstd::prelude::*;
use crate::units::{HUNDRED, Ingredient, IngredientUnit, StepIngredient};

verus! {

/// Fractional digits of a macro total.
pub const MACRO_EXP: u32 = 8;

/// Fractional digits of a calorie total.
pub const CALORIE_EXP: u32 = 9;

/// The most ingredient lines one aggregation takes, so that totals fit.
pub const MAX_LINES: usize = 4_000_000;

/// The four macro nutrients tracked per ingredient.
#[derive(Clone, Copy, Debug, PartialEq, Eq, Structural)]
pub enum Nutrient {
    Carbs,
    Fat,
    Proteins,
    Alcohol,
}

/// Macro and calorie totals of a set of ingredient lines.
#[derive(Clone, Copy, Debug, PartialEq, Eq, Structural)]
pub struct NutritionTotals {
    pub carbs: i128,
    pub fat: i128,
    pub proteins: i128,
    pub alcohol: i128,
    pub calories: i128,
}

/// A quantity in ten-thousandths of the reference measure: no amount counts
/// as nothing, an amount with a unit is scaled by the unit's base value, and
/// an amount without a unit is already in the reference measure.
pub open spec fn normalized(amount: Option<i32>, unit: Option<IngredientUnit>) -> int {
    match amount {
        None => 0,
        Some(a) => match unit {
            Some(u) => a * u.base_value,
            None => a * HUNDRED,
        },
    }
}

/// Content of one nutrient in an ingredient, in hundredths of a gram per 100.
pub open spec fn content(ingredient: Ingredient, n: Nutrient) -> int {
    match n {
        Nutrient::Carbs => ingredient.carbs as int,
        Nutrient::Fat => ingredient.fat as int,
        Nutrient::Proteins => ingredient.proteins as int,
        Nutrient::Alcohol => ingredient.alc as int,
    }
}

/// What one line adds to the total of a nutrient.
pub open spec fn contribution(line: (StepIngredient, Ingredient), n: Nutrient) -> int {
    content(line.1, n) * normalized(line.0.amount, line.0.unit)
}

/// The total of a nutrient over a sequence of lines.
pub open spec fn total(lines: Seq<(StepIngredient, Ingredient)>, n: Nutrient) -> int
    decreases lines.len(),
{
    if lines.len() == 0 {
        0
    } else {
        total(lines.drop_last(), n) + contribution(lines.last(), n)
    }
}

/// Energy of given macro totals: 4.1 kcal per gram of carbs and of proteins,
/// 9.3 per gram of fat and 7.1 per gram of alcohol.
pub open spec fn calories_of(carbs: int, fat: int, proteins: int, alcohol: int) -> int {
    41 * carbs + 93 * fat + 41 * proteins + 71 * alcohol
}

/// Normalizes a quantity to ten-thousandths of the ingredient's reference
/// measure (grams or milliliters).
pub fn normalize(amount: Option<i32>, unit: &Option<IngredientUnit>, ingredient: &Ingredient) -> (r: i64)
    ensures
        r == normalized(amount, *unit),
        amount.is_none() ==> r == 0,
        amount.is_some() && unit.is_none() ==> r == amount.unwrap() * HUNDRED,
        amount.is_some() && unit.is_some() ==> r == amount.unwrap() * unit.unwrap().base_value,
{
    match amount {
        None => 0,
        Some(a) => match unit {
            Some(u) => {
                proof {
                    lemma_mul_bound32(a as int, u.base_value as int);
                }
                (a as i64) * (u.base_value as i64)
            },
            None => (a as i64) * (HUNDRED as i64),
        },
    }
}

proof fn lemma_mul_bound32(a: int, b: int)
    requires
        -0x8000_0000 <= a < 0x8000_0000,
        0 <= b < 0x1_0000_0000,
    ensures
        -0x8000_0000_0000_0000 < a * b < 0x8000_0000_0000_0000,
{
    assert(-0x8000_0000_0000_0000 < a * b < 0x8000_0000_0000_0000) by (nonlinear_arith)
        requires
            -0x8000_0000 <= a < 0x8000_0000,
            0 <= b < 0x1_0000_0000,
    ;
}

proof fn lemma_mul_bound64(c: int, g: int)
    requires
        0 <= c < 0x1_0000_0000,
        -0x8000_0000_0000_0000 <= g <= 0x8000_0000_0000_0000,
    ensures
        -0x8000_0000_0000_0000_0000_0000 <= c * g <= 0x8000_0000_0000_0000_0000_0000,
{
    assert(-0x8000_0000_0000_0000_0000_0000 <= c * g <= 0x8000_0000_0000_0000_0000_0000)
        by (nonlinear_arith)
        requires
            0 <= c < 0x1_0000_0000,
            -0x8000_0000_0000_0000 <= g <= 0x8000_0000_0000_0000,
    ;
}

/// Sums the macros of all lines and derives the calories from the sums.
/// The calories are recomputed from the running totals after every line, so
/// they always match the final macro totals.
pub fn aggregate(usages: &Vec<(StepIngredient, Ingredient)>) -> (r: NutritionTotals)
    requires
        usages.len() <= MAX_LINES,
    ensures
        r.carbs == total(usages@, Nutrient::Carbs),
        r.fat == total(usages@, Nutrient::Fat),
        r.proteins == total(usages@, Nutrient::Proteins),
        r.alcohol == total(usages@, Nutrient::Alcohol),
        r.calories == calories_of(r.carbs as int, r.fat as int, r.proteins as int, r.alcohol as int),
{
    let mut acc = NutritionTotals { carbs: 0, fat: 0, proteins: 0, alcohol: 0, calories: 0 };
    let mut i: usize = 0;
    while i < usages.len()
        invariant
            i <= usages.len() <= MAX_LINES,
            acc.carbs == total(usages@.take(i as int), Nutrient::Carbs),
            acc.fat == total(usages@.take(i as int), Nutrient::Fat),
            acc.proteins == total(usages@.take(i as int), Nutrient::Proteins),
            acc.alcohol == total(usages@.take(i as int), Nutrient::Alcohol),
            acc.calories == calories_of(
                acc.carbs as int,
                acc.fat as int,
                acc.proteins as int,
                acc.alcohol as int,
            ),
            -0x8000_0000_0000_0000_0000_0000 * i <= acc.carbs <= 0x8000_0000_0000_0000_0000_0000 * i,
            -0x8000_0000_0000_0000_0000_0000 * i <= acc.fat <= 0x8000_0000_0000_0000_0000_0000 * i,
            -0x8000_0000_0000_0000_0000_0000 * i <= acc.proteins <= 0x8000_0000_0000_0000_0000_0000
                * i,
            -0x8000_0000_0000_0000_0000_0000 * i <= acc.alcohol <= 0x8000_0000_0000_0000_0000_0000
                * i,
        decreases usages.len() - i,
    {
        let line = &usages[i];
        let grams = normalize(line.0.amount, &line.0.unit, &line.1);
        proof {
            lemma_mul_bound64(line.1.carbs as int, grams as int);
            lemma_mul_bound64(line.1.fat as int, grams as int);
            lemma_mul_bound64(line.1.proteins as int, grams as int);
            lemma_mul_bound64(line.1.alc as int, grams as int);
            assert(usages@.take(i + 1).drop_last() =~= usages@.take(i as int));
            assert(usages@.take(i + 1).last() == usages@[i as int]);
        }
        let g = grams as i128;
        acc.carbs = acc.carbs + (line.1.carbs as i128) * g;
        acc.fat = acc.fat + (line.1.fat as i128) * g;
        acc.proteins = acc.proteins + (line.1.proteins as i128) * g;
        acc.alcohol = acc.alcohol + (line.1.alc as i128) * g;
        acc.calories = 41 * acc.carbs + 93 * acc.fat + 41 * acc.proteins + 71 * acc.alcohol;
        i = i + 1;
    }
    proof {
        assert(usages@.take(usages.len() as int) =~= usages@);
    }
    acc
}

/// Removing the line at index `i` takes exactly its contribution off a total.
proof fn lemma_total_remove(s: Seq<(StepIngredient, Ingredient)>, i: int, n: Nutrient)
    requires
        0 <= i < s.len(),
    ensures
        total(s, n) == total(s.remove(i), n) + contribution(s[i], n),
    decreases s.len(),
{
    if i < s.len() - 1 {
        let t = s.drop_last();
        lemma_total_remove(t, i, n);
        assert(s.remove(i).drop_last() =~= t.remove(i));
        assert(s.remove(i).last() == s.last());
    } else {
        assert(s.remove(i) =~= s.drop_last());
    }
}

/// Totals depend on the multiset of lines only.
proof fn lemma_total_permutation(
    a: Seq<(StepIngredient, Ingredient)>,
    b: Seq<(StepIngredient, Ingredient)>,
    n: Nutrient,
)
    requires
        a.to_multiset() == b.to_multiset(),
    ensures
        total(a, n) == total(b, n),
    decreases a.len(),
{
    broadcast use vstd::seq_lib::group_to_multiset_ensures;

    if a.len() == 0 {
        assert(a.to_multiset().len() == 0);
        assert(b.to_multiset().len() == b.len());
        assert(b =~= Seq::<(StepIngredient, Ingredient)>::empty());
    } else {
        let x = a.last();
        assert(a.drop_last().push(x) =~= a);
        assert(a.to_multiset().count(x) > 0);
        assert(b.contains(x));
        let j = choose|j: int| 0 <= j < b.len() && b[j] == x;
        lemma_total_remove(b, j, n);
        assert(a.drop_last().to_multiset() =~= a.to_multiset().remove(x));
        assert(b.remove(j).to_multiset() =~= b.to_multiset().remove(x));
        lemma_total_permutation(a.drop_last(), b.remove(j), n);
    }
}

/// Aggregation does not depend on the order of the lines: two sequences that
/// hold the same lines, each as often, have the same macro totals and
/// therefore the same calories.
pub proof fn aggregation_is_order_independent(
    a: Seq<(StepIngredient, Ingredient)>,
    b: Seq<(StepIngredient, Ingredient)>,
)
    requires
        a.to_multiset() == b.to_multiset(),
    ensures
        total(a, Nutrient::Carbs) == total(b, Nutrient::Carbs),
        total(a, Nutrient::Fat) == total(b, Nutrient::Fat),
        total(a, Nutrient::Proteins) == total(b, Nutrient::Proteins),
        total(a, Nutrient::Alcohol) == total(b, Nutrient::Alcohol),
        calories_of(
            total(a, Nutrient::Carbs),
            total(a, Nutrient::Fat),
            total(a, Nutrient::Proteins),
            total(a, Nutrient::Alcohol),
        ) == calories_of(
            total(b, Nutrient::Carbs),
            total(b, Nutrient::Fat),
            total(b, Nutrient::Proteins),
            total(b, Nutrient::Alcohol),
        ),
{
    lemma_total_permutation(a, b, Nutrient::Carbs);
    lemma_total_permutation(a, b, Nutrient::Fat);
    lemma_total_permutation(a, b, Nutrient::Proteins);
    lemma_total_permutation(a, b, Nutrient::Alcohol);
}

/// A line without amount ("to taste") adds nothing: adding one to any
/// sequence of lines leaves every total, and so the calories, unchanged.
pub proof fn absent_amount_is_neutral(
    lines: Seq<(StepIngredient, Ingredient)>,
    extra: (StepIngredient, Ingredient),
    n: Nutrient,
)
    requires
        extra.0.amount.is_none(),
    ensures
        total(lines.push(extra), n) == total(lines, n),
{
    assert(lines.push(extra).drop_last() =~= lines);
    assert(normalized(extra.0.amount, extra.0.unit) == 0);
}

} // verus!
