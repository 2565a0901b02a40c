//! Ingredients, their units, and the ingredient lines of recipe steps.
//!
//! Decimal quantities are fixed-point integers in hundredths: an amount of
//! `250` is 2.5 units, a `base_value` of `1500` is 15 g (or ml) per unit, and a
//! `carbs` of `7500` is 75 g per 100 g of the ingredient.
use vstd::prelude::*;

verus! {

/// Fixed-point factor of every decimal input: values are in hundredths.
pub const HUNDRED: u32 = 100;

/// The named units an ingredient can define.
#[derive(Clone, Copy, Debug, PartialEq, Eq, Structural)]
pub enum Units {
    PCS,
    TBSP,
    TSP,
    SKOSH,
    PINCH,
}

/// The natural measure of an ingredient.
#[derive(Clone, Copy, Debug, PartialEq, Eq, Structural)]
pub enum Reference {
    G,
    ML,
}

/// A unit defined for one ingredient: one of it is `base_value` hundredths of
/// the ingredient's reference measure.
#[derive(Clone, Copy, Debug, PartialEq, Eq, Structural)]
pub struct IngredientUnit {
    pub id: i64,
    pub ingredient_id: i64,
    pub identifier: Units,
    pub base_value: u32,
}

/// An ingredient and its macro composition, in hundredths of a gram per 100 of
/// its reference measure.
#[derive(Clone, Debug)]
pub struct Ingredient {
    pub id: i64,
    pub name: String,
    pub reference: Reference,
    pub carbs: u32,
    pub fat: u32,
    pub proteins: u32,
    pub alc: u32,
}

/// One ingredient line of a recipe step, with its unit already resolved.
/// `amount` is in hundredths of the unit (or of the reference measure when
/// there is no unit); a line without amount is "to taste".
#[derive(Clone, Debug)]
pub struct StepIngredient {
    pub ingredient_id: i64,
    pub amount: Option<i32>,
    pub unit: Option<IngredientUnit>,
    pub annotation: Option<String>,
}

/// Whether a unit counts items rather than measuring mass or volume.
pub open spec fn is_count_unit(u: Units) -> bool {
    u == Units::PCS
}

/// The display name of a unit.
pub open spec fn unit_name(u: Units) -> Seq<char> {
    match u {
        Units::PCS => "Stück"@,
        Units::TBSP => "Esslöffel"@,
        Units::TSP => "Teelöffel"@,
        Units::SKOSH => "Prise"@,
        Units::PINCH => "Messerspitze"@,
    }
}

/// The display name of a unit.
pub fn unit_to_str(unit: &Units) -> (r: &'static str)
    ensures
        r@ == unit_name(*unit),
{
    match unit {
        Units::PCS => "Stück",
        Units::TBSP => "Esslöffel",
        Units::TSP => "Teelöffel",
        Units::SKOSH => "Prise",
        Units::PINCH => "Messerspitze",
    }
}

} // verus!
