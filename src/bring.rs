//! Shopping lists in the export format: one item per consolidated group, with
//! the ingredient's name and the amount as text.
use vstd::prelude::*;
use vstd::string::StringExecFns;
use crate::decimal::{fixed_text, format_fixed};
use crate::shopping::{
    AMOUNT_EXP, GroupView, MAX_ITEMS, ShoppingGroup, consolidate, consolidate_weekplan, consolidated, views,
    weekplan_items, with_scale,
};
use crate::units::{HUNDRED, Ingredient, IngredientUnit, StepIngredient, unit_name, unit_to_str};
use crate::weekplan::WeekplanEntry;

verus! {

/// One item of an exported shopping list.
#[derive(Clone, Debug)]
pub struct BringItem {
    pub item_id: String,
    pub spec: String,
}

/// An exported shopping list.
#[derive(Clone, Debug)]
pub struct BringRecipe {
    pub name: String,
    pub author: String,
    pub items: Vec<BringItem>,
}

/// Whether an integer fits in 128 bits.
pub open spec fn fits_i128(x: int) -> bool {
    i128::MIN <= x <= i128::MAX
}

/// Text of an amount counted in pieces: the count and the unit's name.
pub open spec fn with_unit_text(amount: Seq<char>, unit: IngredientUnit) -> Seq<char> {
    amount + " "@ + unit_name(unit.identifier)
}

/// The amount of a single-recipe group scaled by the portions fits in 128
/// bits.
pub open spec fn recipe_figures_fit(amount: int, portions: int) -> bool {
    fits_i128(amount * portions)
}

/// Amount text of a group of a single recipe, whose `amount` (millionths) is
/// for one serving as written and `portions` in hundredths. The amount scaled
/// by the portions is shown with two decimals, followed by the unit's name for
/// a counted group and by `g` otherwise; a scaled amount of zero or less shows
/// as empty text.
pub open spec fn recipe_amount_text(amount: int, portions: int, unit: Option<IngredientUnit>) -> Seq<
    char,
> {
    let shown = amount * portions;
    if shown > 0 {
        match unit {
            Some(u) => with_unit_text(fixed_text(shown, 8, 2), u),
            None => fixed_text(shown, 8, 2) + "g"@,
        }
    } else {
        seq![]
    }
}

/// Amount text of a group of a week plan, whose `amount` (millionths) already
/// holds the portions. A counted group shows the count with two decimals and
/// the unit's name; any other positive amount shows in whole grams; an amount
/// of zero or less shows as empty text.
pub open spec fn weekplan_amount_text(amount: int, unit: Option<IngredientUnit>) -> Seq<char> {
    if amount > 0 {
        match unit {
            Some(u) => with_unit_text(fixed_text(amount, 6, 2), u),
            None => fixed_text(amount, 6, 0) + "g"@,
        }
    } else {
        seq![]
    }
}

/// An item shows a group's name and the given amount text.
pub open spec fn item_shows(item: BringItem, g: GroupView, text: Seq<char>) -> bool {
    item.item_id@ == g.name && item.spec@ == text
}

fn unit_text(amount: String, unit: &IngredientUnit) -> (r: String)
    ensures
        r@ == with_unit_text(amount@, *unit),
{
    let mut out = amount;
    out.append(" ");
    out.append(unit_to_str(&unit.identifier));
    out
}

/// The amount text of a single-recipe group.
pub fn calc_amount(amount: i128, portions: i64, unit: &Option<IngredientUnit>) -> (r: String)
    requires
        recipe_figures_fit(amount as int, portions as int),
    ensures
        r@ == recipe_amount_text(amount as int, portions as int, *unit),
        amount * portions <= 0 ==> r@.len() == 0,
{
    let shown = amount * (portions as i128);
    if shown > 0 {
        match unit {
            Some(u) => unit_text(format_fixed(shown, 8, 2), u),
            None => {
                let mut out = format_fixed(shown, 8, 2);
                out.append("g");
                out
            },
        }
    } else {
        String::new()
    }
}

/// The amount text of a week plan group.
pub fn amount_str(amount: i128, unit: &Option<IngredientUnit>) -> (r: String)
    ensures
        r@ == weekplan_amount_text(amount as int, *unit),
        amount <= 0 ==> r@.len() == 0,
{
    if amount > 0 {
        match unit {
            Some(u) => unit_text(format_fixed(amount, AMOUNT_EXP, 2), u),
            None => {
                let mut out = format_fixed(amount, AMOUNT_EXP, 0);
                out.append("g");
                out
            },
        }
    } else {
        String::new()
    }
}

/// Whether the amount of a single-recipe group scaled by the portions fits in
/// 128 bits.
pub fn recipe_figures_fit_exec(amount: i128, portions: i64) -> (r: bool)
    ensures
        r == recipe_figures_fit(amount as int, portions as int),
{
    amount.checked_mul(portions as i128).is_some()
}

/// Every group of a single-recipe list fits in 128 bits once scaled.
pub open spec fn recipe_list_fits(gs: Seq<GroupView>, portions: int) -> bool {
    forall|i: int| 0 <= i < gs.len() ==> recipe_figures_fit(#[trigger] gs[i].amount, portions)
}

/// The items show the groups of a single-recipe list, one for one.
pub open spec fn recipe_list_shows(items: Seq<BringItem>, gs: Seq<GroupView>, portions: int) -> bool {
    items.len() == gs.len() && forall|i: int|
        0 <= i < gs.len() ==> item_shows(
            #[trigger] items[i],
            gs[i],
            recipe_amount_text(gs[i].amount, portions, gs[i].unit),
        )
}

/// The items of a single-recipe list, one per group and in the same order;
/// none when the scaled amount of some group does not fit in 128 bits.
pub fn recipe_items(groups: &Vec<ShoppingGroup>, portions: i64) -> (r: Option<Vec<BringItem>>)
    ensures
        r.is_some() <==> recipe_list_fits(views(groups@), portions as int),
        r.is_some() ==> recipe_list_shows(r.unwrap()@, views(groups@), portions as int),
{
    let ghost gs = views(groups@);
    let mut items: Vec<BringItem> = Vec::new();
    let mut i: usize = 0;
    while i < groups.len()
        invariant
            i <= groups.len(),
            gs == views(groups@),
            items.len() == i,
            recipe_list_fits(gs.take(i as int), portions as int),
            recipe_list_shows(items@, gs.take(i as int), portions as int),
        decreases groups.len() - i,
    {
        let g = &groups[i];
        proof {
            assert(gs[i as int] == g@);
        }
        if !recipe_figures_fit_exec(g.amount, portions) {
            assert(!recipe_figures_fit(gs[i as int].amount, portions as int));
            return None;
        }
        let item = BringItem {
            item_id: g.name.clone(),
            spec: calc_amount(g.amount, portions, &g.unit),
        };
        items.push(item);
        i = i + 1;
        proof {
            let t = gs.take(i as int);
            assert(recipe_list_fits(t, portions as int)) by {
                assert forall|k: int| 0 <= k < t.len() implies recipe_figures_fit(
                    #[trigger] t[k].amount,
                    portions as int,
                ) by {
                    if k < i - 1 {
                        assert(t[k] == gs.take(i - 1)[k]);
                    }
                }
            }
            assert(recipe_list_shows(items@, t, portions as int)) by {
                assert forall|k: int| 0 <= k < t.len() implies item_shows(
                    #[trigger] items@[k],
                    t[k],
                    recipe_amount_text(t[k].amount, portions as int, t[k].unit),
                ) by {
                    if k < i - 1 {
                        assert(t[k] == gs.take(i - 1)[k]);
                    }
                }
            }
        }
    }
    proof {
        assert(gs.take(groups.len() as int) =~= gs);
    }
    Some(items)
}

/// The items show the groups of a week plan list, one for one.
pub open spec fn weekplan_list_shows(items: Seq<BringItem>, gs: Seq<GroupView>) -> bool {
    items.len() == gs.len() && forall|i: int|
        0 <= i < gs.len() ==> item_shows(
            #[trigger] items[i],
            gs[i],
            weekplan_amount_text(gs[i].amount, gs[i].unit),
        )
}

/// The items of a week plan list, one per group and in the same order.
pub fn weekplan_items_text(groups: &Vec<ShoppingGroup>) -> (r: Vec<BringItem>)
    ensures
        weekplan_list_shows(r@, views(groups@)),
{
    let ghost gs = views(groups@);
    let mut items: Vec<BringItem> = Vec::new();
    let mut i: usize = 0;
    while i < groups.len()
        invariant
            i <= groups.len(),
            gs == views(groups@),
            items.len() == i,
            weekplan_list_shows(items@, gs.take(i as int)),
        decreases groups.len() - i,
    {
        let g = &groups[i];
        proof {
            assert(gs[i as int] == g@);
        }
        let item = BringItem { item_id: g.name.clone(), spec: amount_str(g.amount, &g.unit) };
        items.push(item);
        i = i + 1;
        proof {
            let t = gs.take(i as int);
            assert(weekplan_list_shows(items@, t)) by {
                assert forall|k: int| 0 <= k < t.len() implies item_shows(
                    #[trigger] items@[k],
                    t[k],
                    weekplan_amount_text(t[k].amount, t[k].unit),
                ) by {
                    if k < i - 1 {
                        assert(t[k] == gs.take(i - 1)[k]);
                    }
                }
            }
        }
    }
    proof {
        assert(gs.take(groups.len() as int) =~= gs);
    }
    items
}

/// The portions a single-recipe list is made for, in hundredths: one serving
/// when none is asked for, the recipe's default servings when a negative
/// number is asked for, else the number asked for.
pub fn effective_portions(requested: Option<i64>, default_servings: i32) -> (r: i64)
    ensures
        r == match requested {
            None => HUNDRED as int,
            Some(p) => if p < 0 {
                default_servings * HUNDRED
            } else {
                p as int
            },
        },
{
    match requested {
        None => HUNDRED as i64,
        Some(p) => if p < 0 {
            (default_servings as i64) * (HUNDRED as i64)
        } else {
            p
        },
    }
}

/// The author shown on a list: the user's name, or their email without one.
pub fn author_of(name: Option<String>, email: String) -> (r: String)
    ensures
        r@ == match name {
            Some(n) => n@,
            None => email@,
        },
{
    match name {
        Some(n) => n,
        None => email,
    }
}

/// The shopping list of one recipe: its lines are merged once as written,
/// and each group is then shown for `portions` (hundredths). None when a
/// scaled amount does not fit in 128 bits.
pub fn recipe_bring(
    name: String,
    author: String,
    usages: &Vec<(StepIngredient, Ingredient)>,
    portions: i64,
) -> (r: Option<BringRecipe>)
    requires
        usages.len() <= MAX_ITEMS,
    ensures
        r.is_some() <==> recipe_list_fits(
            consolidated(with_scale(usages@, HUNDRED as int)),
            portions as int,
        ),
        r.is_some() ==> r.unwrap().name@ == name@ && r.unwrap().author@ == author@
            && recipe_list_shows(
            r.unwrap().items@,
            consolidated(with_scale(usages@, HUNDRED as int)),
            portions as int,
        ),
{
    let groups = consolidate(usages, HUNDRED as i64);
    match recipe_items(&groups, portions) {
        Some(items) => Some(BringRecipe { name, author, items }),
        None => None,
    }
}

/// The shopping list of a week plan: the lines of each entry's recipe are
/// merged, scaled by the entry's portions.
pub fn weekplan_bring(
    author: String,
    entries: &Vec<WeekplanEntry>,
    lines: &Vec<(i64, StepIngredient, Ingredient)>,
) -> (r: BringRecipe)
    requires
        weekplan_items(entries@, lines@).len() <= MAX_ITEMS,
    ensures
        r.name@ == "Weekplan"@,
        r.author@ == author@,
        weekplan_list_shows(r.items@, consolidated(weekplan_items(entries@, lines@))),
{
    let groups = consolidate_weekplan(entries, lines);
    let items = weekplan_items_text(&groups);
    BringRecipe { name: String::from_str("Weekplan"), author, items }
}

} // verus!
