//! Shopping-list consolidation: ingredient lines of one or more recipes are
//! merged into one amount per ingredient and bucket.
//!
//! The bucket of a line is its unit when that unit counts pieces, which are
//! never converted; every other unit is converted to the ingredient's
//! reference measure and merged with the lines that have no unit, in the
//! sentinel bucket [`NO_UNIT`].
//!
//! A group amount is in millionths: a line amount in hundredths, times a
//! factor in hundredths (the base value of a measuring unit, or one), times a
//! scale in hundredths.
use vstd::prelude::*;
use crate::units::{HUNDRED, Ingredient, IngredientUnit, StepIngredient, Units, is_count_unit};
use crate::weekplan::WeekplanEntry;

verus! {

/// The bucket of lines measured in the reference measure.
pub const NO_UNIT: i64 = -1;

/// The largest scale, in hundredths, that a consolidation accepts.
pub const SCALE_LIMIT: i64 = 0x200_0000_0000;

/// The most lines that one consolidation takes, so that amounts fit.
pub const MAX_ITEMS: usize = 4_000_000;

/// Fractional digits of a group amount.
pub const AMOUNT_EXP: u32 = 6;

/// The merged amount of one ingredient in one bucket.
#[derive(Clone, Debug)]
pub struct ShoppingGroup {
    pub ingredient_id: i64,
    pub bucket: i64,
    pub name: String,
    pub unit: Option<IngredientUnit>,
    pub amount: i128,
    pub notes: Vec<String>,
}

/// What a group holds, as plain values.
pub struct GroupView {
    pub ingredient_id: i64,
    pub bucket: i64,
    pub name: Seq<char>,
    pub unit: Option<IngredientUnit>,
    pub amount: int,
    pub notes: Seq<Seq<char>>,
}

impl View for ShoppingGroup {
    type V = GroupView;

    open spec fn view(&self) -> GroupView {
        GroupView {
            ingredient_id: self.ingredient_id,
            bucket: self.bucket,
            name: self.name@,
            unit: self.unit,
            amount: self.amount as int,
            notes: self.notes@.map_values(|s: String| s@),
        }
    }
}

/// The views of a sequence of groups.
pub open spec fn views(gs: Seq<ShoppingGroup>) -> Seq<GroupView> {
    gs.map_values(|g: ShoppingGroup| g@)
}

/// The bucket a line falls in.
pub open spec fn bucket_of(u: StepIngredient) -> i64 {
    match u.unit {
        Some(unit) => if is_count_unit(unit.identifier) {
            unit.id
        } else {
            NO_UNIT
        },
        None => NO_UNIT,
    }
}

/// The unit a group keeps for display: only a counting unit is kept.
pub open spec fn kept_unit(u: StepIngredient) -> Option<IngredientUnit> {
    match u.unit {
        Some(unit) => if is_count_unit(unit.identifier) {
            Some(unit)
        } else {
            None
        },
        None => None,
    }
}

/// The factor, in hundredths, that turns a line amount into the group's
/// measure: pieces stay pieces, measuring units are converted.
pub open spec fn factor_of(u: StepIngredient) -> int {
    match u.unit {
        Some(unit) => if is_count_unit(unit.identifier) {
            HUNDRED as int
        } else {
            unit.base_value as int
        },
        None => HUNDRED as int,
    }
}

/// What a line adds to its group at a given scale.
pub open spec fn scaled_amount(u: StepIngredient, scale: int) -> int {
    match u.amount {
        Some(a) => a * factor_of(u) * scale,
        None => 0,
    }
}

/// The annotation of a line, as a list of zero or one notes.
pub open spec fn notes_of(u: StepIngredient) -> Seq<Seq<char>> {
    match u.annotation {
        Some(s) => seq![s@],
        None => seq![],
    }
}

/// Whether a group has the given key.
pub open spec fn has_key(g: GroupView, ingredient_id: i64, bucket: i64) -> bool {
    g.ingredient_id == ingredient_id && g.bucket == bucket
}

/// The index of the first group with the given key, or -1.
pub open spec fn group_index(gs: Seq<GroupView>, ingredient_id: i64, bucket: i64) -> int
    decreases gs.len(),
{
    if gs.len() == 0 {
        -1
    } else {
        let j = group_index(gs.drop_last(), ingredient_id, bucket);
        if j >= 0 {
            j
        } else if has_key(gs.last(), ingredient_id, bucket) {
            gs.len() - 1
        } else {
            -1
        }
    }
}

/// Groups after one more line: it is added to the group of its key, or opens
/// a new group at the end.
pub open spec fn add_line(
    gs: Seq<GroupView>,
    u: StepIngredient,
    ingredient: Ingredient,
    scale: int,
) -> Seq<GroupView> {
    let k = group_index(gs, u.ingredient_id, bucket_of(u));
    if k >= 0 {
        gs.update(
            k,
            GroupView {
                amount: gs[k].amount + scaled_amount(u, scale),
                notes: gs[k].notes + notes_of(u),
                ..gs[k]
            },
        )
    } else {
        gs.push(
            GroupView {
                ingredient_id: u.ingredient_id,
                bucket: bucket_of(u),
                name: ingredient.name@,
                unit: kept_unit(u),
                amount: scaled_amount(u, scale),
                notes: notes_of(u),
            },
        )
    }
}

/// The groups of a sequence of lines, each with its own scale, in the order
/// in which their keys first appear.
pub open spec fn consolidated(items: Seq<(StepIngredient, Ingredient, int)>) -> Seq<GroupView>
    decreases items.len(),
{
    if items.len() == 0 {
        seq![]
    } else {
        let x = items.last();
        add_line(consolidated(items.drop_last()), x.0, x.1, x.2)
    }
}

/// Lines that all have the same scale.
pub open spec fn with_scale(lines: Seq<(StepIngredient, Ingredient)>, scale: int) -> Seq<
    (StepIngredient, Ingredient, int),
> {
    lines.map_values(|p: (StepIngredient, Ingredient)| (p.0, p.1, scale))
}

/// The lines of a week plan: for each entry in order, the lines of its recipe
/// scaled by the entry's portions.
pub open spec fn weekplan_items(
    entries: Seq<WeekplanEntry>,
    lines: Seq<(i64, StepIngredient, Ingredient)>,
) -> Seq<(StepIngredient, Ingredient, int)>
    decreases entries.len(),
{
    if entries.len() == 0 {
        seq![]
    } else {
        weekplan_items(entries.drop_last(), lines) + entry_items(entries.last(), lines)
    }
}

/// The lines of the recipe of one plan entry, scaled by its portions.
pub open spec fn entry_items(e: WeekplanEntry, lines: Seq<(i64, StepIngredient, Ingredient)>) -> Seq<
    (StepIngredient, Ingredient, int),
>
    decreases lines.len(),
{
    if lines.len() == 0 {
        seq![]
    } else {
        let x = lines.last();
        let rest = entry_items(e, lines.drop_last());
        if x.0 == e.recipe_id {
            rest.push((x.1, x.2, e.portions * HUNDRED))
        } else {
            rest
        }
    }
}

/// The bound on what one line adds to a group.
pub open spec fn line_bound() -> int {
    0x100_0000_0000_0000_0000_0000_0000
}

/// Every group amount is within `n` line bounds.
pub open spec fn amounts_within(gs: Seq<GroupView>, n: int) -> bool {
    forall|i: int| 0 <= i < gs.len() ==> -(line_bound() * n) <= #[trigger] gs[i].amount <= line_bound() * n
}

proof fn lemma_group_index(gs: Seq<GroupView>, ingredient_id: i64, bucket: i64)
    ensures
        -1 <= group_index(gs, ingredient_id, bucket) < gs.len(),
        group_index(gs, ingredient_id, bucket) == -1 <==> forall|i: int|
            0 <= i < gs.len() ==> !has_key(#[trigger] gs[i], ingredient_id, bucket),
        group_index(gs, ingredient_id, bucket) >= 0 ==> has_key(
            gs[group_index(gs, ingredient_id, bucket)],
            ingredient_id,
            bucket,
        ),
        forall|i: int|
            0 <= i < group_index(gs, ingredient_id, bucket) ==> !has_key(
                #[trigger] gs[i],
                ingredient_id,
                bucket,
            ),
    decreases gs.len(),
{
    if gs.len() > 0 {
        let t = gs.drop_last();
        lemma_group_index(t, ingredient_id, bucket);
        assert forall|i: int| 0 <= i < t.len() implies t[i] == gs[i] by {}
    }
}

proof fn lemma_scaled_bound(u: StepIngredient, scale: int)
    requires
        -SCALE_LIMIT <= scale <= SCALE_LIMIT,
    ensures
        -line_bound() <= scaled_amount(u, scale) <= line_bound(),
{
    match u.amount {
        Some(a) => {
            let f = factor_of(u);
            assert(0 <= f < 0x1_0000_0000);
            assert(-line_bound() <= a * f * scale <= line_bound()) by (nonlinear_arith)
                requires
                    -0x8000_0000 <= a < 0x8000_0000,
                    0 <= f < 0x1_0000_0000,
                    -0x200_0000_0000 <= scale <= 0x200_0000_0000,
                    line_bound() == 0x100_0000_0000_0000_0000_0000_0000,
            ;
        },
        None => {},
    }
}

/// Adds one line to the groups.
fn add_to_groups(
    groups: &mut Vec<ShoppingGroup>,
    u: &StepIngredient,
    ingredient: &Ingredient,
    scale: i64,
    Ghost(n): Ghost<int>,
)
    requires
        -SCALE_LIMIT <= scale <= SCALE_LIMIT,
        0 <= n < MAX_ITEMS,
        amounts_within(views(old(groups)@), n),
    ensures
        views(final(groups)@) == add_line(views(old(groups)@), *u, *ingredient, scale as int),
        amounts_within(views(final(groups)@), n + 1),
{
    let ghost old_views = views(groups@);
    let bucket: i64;
    let factor: i64;
    let unit: Option<IngredientUnit>;
    match &u.unit {
        Some(un) => {
            if un.identifier == Units::PCS {
                bucket = un.id;
                factor = HUNDRED as i64;
                unit = Some(*un);
            } else {
                bucket = NO_UNIT;
                factor = un.base_value as i64;
                unit = None;
            }
        },
        None => {
            bucket = NO_UNIT;
            factor = HUNDRED as i64;
            unit = None;
        },
    }
    proof {
        lemma_scaled_bound(*u, scale as int);
        lemma_group_index(old_views, u.ingredient_id, bucket);
    }
    let add: i128 = match u.amount {
        Some(a) => {
            proof {
                assert(-line_bound() <= a * factor * scale <= line_bound());
                assert(-0x1_0000_0000_0000_0000 < a * factor < 0x1_0000_0000_0000_0000)
                    by (nonlinear_arith)
                    requires
                        -0x8000_0000 <= a < 0x8000_0000,
                        0 <= factor < 0x1_0000_0000,
                ;
            }
            (a as i128) * (factor as i128) * (scale as i128)
        },
        None => 0,
    };
    assert(-line_bound() <= add <= line_bound());
    let mut j: usize = 0;
    while j < groups.len() && !(groups[j].ingredient_id == u.ingredient_id && groups[j].bucket
        == bucket)
        invariant
            j <= groups.len(),
            groups@ == old(groups)@,
            old_views == views(groups@),
            0 <= n < MAX_ITEMS,
            amounts_within(old_views, n),
            -line_bound() <= add <= line_bound(),
            forall|i: int| 0 <= i < j ==> !has_key(#[trigger] old_views[i], u.ingredient_id, bucket),
        decreases groups.len() - j,
    {
        j = j + 1;
    }
    if j < groups.len() {
        proof {
            assert(has_key(old_views[j as int], u.ingredient_id, bucket));
            assert(group_index(old_views, u.ingredient_id, bucket) == j);
            assert(old_views[j as int].amount == groups@[j as int].amount);
            assert(-(line_bound() * n) <= old_views[j as int].amount <= line_bound() * n);
            assert(line_bound() * (n + 1) < 0x4000_0000_0000_0000_0000_0000_0000_0000);
            assert(line_bound() * (n + 1) == line_bound() * n + line_bound()) by (nonlinear_arith);
            assert(-line_bound() <= add <= line_bound());
        }
        let ghost g0 = groups[j as int];
        let new_amount = groups[j].amount + add;
        groups[j].amount = new_amount;
        match &u.annotation {
            Some(note) => {
                groups[j].notes.push(note.clone());
            },
            None => {},
        }
        proof {
            let g1 = groups@[j as int];
            assert(g1.notes@.map_values(|s: String| s@) =~= g0.notes@.map_values(|s: String| s@)
                + notes_of(*u));
            assert(views(groups@) =~= add_line(old_views, *u, *ingredient, scale as int));
            assert forall|i: int| 0 <= i < groups@.len() implies -(line_bound() * (n + 1))
                <= #[trigger] views(groups@)[i].amount <= line_bound() * (n + 1) by {
                if i != j {
                    assert(views(groups@)[i] == old_views[i]);
                }
            }
        }
    } else {
        let mut notes: Vec<String> = Vec::new();
        match &u.annotation {
            Some(note) => {
                notes.push(note.clone());
            },
            None => {},
        }
        let g = ShoppingGroup {
            ingredient_id: u.ingredient_id,
            bucket,
            name: ingredient.name.clone(),
            unit,
            amount: add,
            notes,
        };
        groups.push(g);
        proof {
            assert(g.notes@.map_values(|s: String| s@) =~= notes_of(*u));
            assert(views(groups@) =~= add_line(old_views, *u, *ingredient, scale as int));
            assert forall|i: int| 0 <= i < groups@.len() implies -(line_bound() * (n + 1))
                <= #[trigger] views(groups@)[i].amount <= line_bound() * (n + 1) by {
                if i < old_views.len() {
                    assert(views(groups@)[i] == old_views[i]);
                }
            }
        }
    }
}

/// Merges the lines of one recipe, each amount scaled by `scale` (in
/// hundredths: `100` is one serving as written).
pub fn consolidate(usages: &Vec<(StepIngredient, Ingredient)>, scale: i64) -> (r: Vec<
    ShoppingGroup,
>)
    requires
        usages.len() <= MAX_ITEMS,
        -SCALE_LIMIT <= scale <= SCALE_LIMIT,
    ensures
        views(r@) == consolidated(with_scale(usages@, scale as int)),
{
    let mut groups: Vec<ShoppingGroup> = Vec::new();
    let mut i: usize = 0;
    while i < usages.len()
        invariant
            i <= usages.len() <= MAX_ITEMS,
            -SCALE_LIMIT <= scale <= SCALE_LIMIT,
            views(groups@) == consolidated(with_scale(usages@.take(i as int), scale as int)),
            amounts_within(views(groups@), i as int),
        decreases usages.len() - i,
    {
        proof {
            let s = with_scale(usages@.take(i + 1), scale as int);
            assert(s.drop_last() =~= with_scale(usages@.take(i as int), scale as int));
            assert(s.last() == (usages@[i as int].0, usages@[i as int].1, scale as int));
        }
        add_to_groups(&mut groups, &usages[i].0, &usages[i].1, scale, Ghost(i as int));
        i = i + 1;
    }
    proof {
        assert(usages@.take(usages.len() as int) =~= usages@);
    }
    groups
}

proof fn lemma_entry_items_len(e: WeekplanEntry, lines: Seq<(i64, StepIngredient, Ingredient)>)
    ensures
        entry_items(e, lines).len() <= lines.len(),
    decreases lines.len(),
{
    if lines.len() > 0 {
        lemma_entry_items_len(e, lines.drop_last());
    }
}

proof fn lemma_weekplan_items_prefix(
    entries: Seq<WeekplanEntry>,
    lines: Seq<(i64, StepIngredient, Ingredient)>,
    k: int,
)
    requires
        0 <= k <= entries.len(),
    ensures
        weekplan_items(entries.take(k), lines).len() <= weekplan_items(entries, lines).len(),
    decreases entries.len(),
{
    if k < entries.len() {
        assert(entries.drop_last().take(k) =~= entries.take(k));
        lemma_weekplan_items_prefix(entries.drop_last(), lines, k);
    } else {
        assert(entries.take(k) =~= entries);
    }
}

/// Merges the lines of all recipes of a week plan, each scaled by its
/// entry's portions. `lines` holds each ingredient line with its recipe id.
pub fn consolidate_weekplan(
    entries: &Vec<WeekplanEntry>,
    lines: &Vec<(i64, StepIngredient, Ingredient)>,
) -> (r: Vec<ShoppingGroup>)
    requires
        weekplan_items(entries@, lines@).len() <= MAX_ITEMS,
    ensures
        views(r@) == consolidated(weekplan_items(entries@, lines@)),
{
    let mut groups: Vec<ShoppingGroup> = Vec::new();
    let mut i: usize = 0;
    while i < entries.len()
        invariant
            i <= entries.len(),
            weekplan_items(entries@, lines@).len() <= MAX_ITEMS,
            views(groups@) == consolidated(weekplan_items(entries@.take(i as int), lines@)),
            amounts_within(
                views(groups@),
                weekplan_items(entries@.take(i as int), lines@).len() as int,
            ),
        decreases entries.len() - i,
    {
        let e = entries[i];
        let ghost done = weekplan_items(entries@.take(i as int), lines@);
        proof {
            assert(entries@.take(i + 1).drop_last() =~= entries@.take(i as int));
            lemma_weekplan_items_prefix(entries@, lines@, i + 1);
        }
        let scale: i64 = (e.portions as i64) * (HUNDRED as i64);
        let mut j: usize = 0;
        while j < lines.len()
            invariant
                i < entries.len(),
                e == entries@[i as int],
                j <= lines.len(),
                scale == e.portions * HUNDRED,
                done == weekplan_items(entries@.take(i as int), lines@),
                done.len() + entry_items(e, lines@).len() <= MAX_ITEMS,
                views(groups@) == consolidated(done + entry_items(e, lines@.take(j as int))),
                amounts_within(
                    views(groups@),
                    (done.len() + entry_items(e, lines@.take(j as int)).len()) as int,
                ),
            decreases lines.len() - j,
        {
            let ghost before = done + entry_items(e, lines@.take(j as int));
            proof {
                assert(lines@.take(j + 1).drop_last() =~= lines@.take(j as int));
                assert(lines@.take(j + 1).last() == lines@[j as int]);
                lemma_entry_items_len(e, lines@.take(j + 1));
                lemma_entry_items_len(e, lines@);
                lemma_entry_items_prefix(e, lines@, j + 1);
            }
            if lines[j].0 == e.recipe_id {
                add_to_groups(
                    &mut groups,
                    &lines[j].1,
                    &lines[j].2,
                    scale,
                    Ghost(before.len() as int),
                );
                proof {
                    let after = done + entry_items(e, lines@.take(j + 1));
                    assert(after.drop_last() =~= before);
                }
            } else {
                proof {
                    assert(done + entry_items(e, lines@.take(j + 1)) =~= before);
                }
            }
            j = j + 1;
        }
        proof {
            assert(lines@.take(lines.len() as int) =~= lines@);
            assert(weekplan_items(entries@.take(i + 1), lines@) =~= done + entry_items(e, lines@));
        }
        i = i + 1;
    }
    proof {
        assert(entries@.take(entries.len() as int) =~= entries@);
    }
    groups
}

proof fn lemma_entry_items_prefix(
    e: WeekplanEntry,
    lines: Seq<(i64, StepIngredient, Ingredient)>,
    k: int,
)
    requires
        0 <= k <= lines.len(),
    ensures
        entry_items(e, lines.take(k)).len() <= entry_items(e, lines).len(),
    decreases lines.len(),
{
    if k < lines.len() {
        assert(lines.drop_last().take(k) =~= lines.take(k));
        lemma_entry_items_prefix(e, lines.drop_last(), k);
    } else {
        assert(lines.take(k) =~= lines);
    }
}

/// Two group sequences with the same keys, in the same order.
pub open spec fn same_keys(a: Seq<GroupView>, b: Seq<GroupView>) -> bool {
    a.len() == b.len() && forall|i: int|
        0 <= i < a.len() ==> #[trigger] a[i].ingredient_id == b[i].ingredient_id && a[i].bucket
            == b[i].bucket
}

/// `big` is `small` with every amount multiplied by `m`.
pub open spec fn amounts_scaled(big: Seq<GroupView>, small: Seq<GroupView>, m: int) -> bool {
    big.len() == small.len() && forall|i: int|
        0 <= i < big.len() ==> #[trigger] big[i] == (GroupView {
            amount: m * small[i].amount,
            ..small[i]
        })
}

proof fn lemma_group_index_same_keys(a: Seq<GroupView>, b: Seq<GroupView>, id: i64, bucket: i64)
    requires
        same_keys(a, b),
    ensures
        group_index(a, id, bucket) == group_index(b, id, bucket),
    decreases a.len(),
{
    if a.len() > 0 {
        let (ta, tb) = (a.drop_last(), b.drop_last());
        assert(same_keys(ta, tb)) by {
            assert forall|i: int| 0 <= i < ta.len() implies #[trigger] ta[i].ingredient_id
                == tb[i].ingredient_id && ta[i].bucket == tb[i].bucket by {
                assert(ta[i] == a[i] && tb[i] == b[i]);
            }
        }
        lemma_group_index_same_keys(ta, tb, id, bucket);
        assert(a.last() == a[a.len() - 1] && b.last() == b[b.len() - 1]);
    }
}

/// Lines with every scale multiplied by `m`.
pub open spec fn items_scaled(items: Seq<(StepIngredient, Ingredient, int)>, m: int) -> Seq<
    (StepIngredient, Ingredient, int),
> {
    items.map_values(|x: (StepIngredient, Ingredient, int)| (x.0, x.1, m * x.2))
}

/// Multiplying the scale of every line by `m` gives the same groups, with
/// every amount multiplied by `m`.
pub proof fn scaled_lines_multiply_amounts(items: Seq<(StepIngredient, Ingredient, int)>, m: int)
    ensures
        amounts_scaled(consolidated(items_scaled(items, m)), consolidated(items), m),
    decreases items.len(),
{
    let big = items_scaled(items, m);
    if items.len() > 0 {
        let t = items.drop_last();
        assert(big.drop_last() =~= items_scaled(t, m));
        scaled_lines_multiply_amounts(t, m);
        let gb = consolidated(items_scaled(t, m));
        let gs = consolidated(t);
        let (u, ing, scale) = (items.last().0, items.last().1, items.last().2);
        assert(big.last() == (u, ing, m * scale));
        assert(same_keys(gb, gs)) by {
            assert forall|i: int| 0 <= i < gb.len() implies #[trigger] gb[i].ingredient_id
                == gs[i].ingredient_id && gb[i].bucket == gs[i].bucket by {
                assert(gb[i] == (GroupView { amount: m * gs[i].amount, ..gs[i] }));
            }
        }
        lemma_group_index_same_keys(gb, gs, u.ingredient_id, bucket_of(u));
        let k = group_index(gs, u.ingredient_id, bucket_of(u));
        lemma_group_index(gs, u.ingredient_id, bucket_of(u));
        assert(scaled_amount(u, m * scale) == m * scaled_amount(u, scale)) by {
            match u.amount {
                Some(a) => {
                    let f = factor_of(u);
                    assert(a * f * (m * scale) == m * (a * f * scale)) by (nonlinear_arith);
                },
                None => {},
            }
        }
        let rb = consolidated(big);
        let rs = consolidated(items);
        assert(rb == add_line(gb, u, ing, m * scale));
        assert(rs == add_line(gs, u, ing, scale));
        if k >= 0 {
            assert(gb[k] == (GroupView { amount: m * gs[k].amount, ..gs[k] }));
            assert(m * gs[k].amount + m * scaled_amount(u, scale) == m * (gs[k].amount
                + scaled_amount(u, scale))) by (nonlinear_arith);
            assert forall|i: int| 0 <= i < rb.len() implies #[trigger] rb[i] == (GroupView {
                amount: m * rs[i].amount,
                ..rs[i]
            }) by {
                if i != k {
                    assert(gb[i] == (GroupView { amount: m * gs[i].amount, ..gs[i] }));
                }
            }
        } else {
            assert forall|i: int| 0 <= i < rb.len() implies #[trigger] rb[i] == (GroupView {
                amount: m * rs[i].amount,
                ..rs[i]
            }) by {
                if i < gb.len() {
                    assert(gb[i] == (GroupView { amount: m * gs[i].amount, ..gs[i] }));
                }
            }
        }
    } else {
        assert(big.len() == 0);
    }
}

/// Consolidating lines at scale `m * scale` gives the groups of `scale`, with
/// every amount multiplied by `m`; in particular a doubled scale doubles every
/// group amount.
pub proof fn scale_multiplies_amounts(lines: Seq<(StepIngredient, Ingredient)>, scale: int, m: int)
    ensures
        amounts_scaled(
            consolidated(with_scale(lines, m * scale)),
            consolidated(with_scale(lines, scale)),
            m,
        ),
{
    assert(with_scale(lines, m * scale) =~= items_scaled(with_scale(lines, scale), m));
    scaled_lines_multiply_amounts(with_scale(lines, scale), m);
}

/// `more` is the plan `entries` with every entry's portions multiplied by `m`.
pub open spec fn portions_multiplied(more: Seq<WeekplanEntry>, entries: Seq<WeekplanEntry>, m: int) -> bool {
    more.len() == entries.len() && forall|i: int|
        0 <= i < entries.len() ==> (#[trigger] more[i]).recipe_id == entries[i].recipe_id
            && more[i].portions == m * entries[i].portions
}

proof fn lemma_entry_items_scaled(
    e: WeekplanEntry,
    f: WeekplanEntry,
    lines: Seq<(i64, StepIngredient, Ingredient)>,
    m: int,
)
    requires
        f.recipe_id == e.recipe_id,
        f.portions == m * e.portions,
    ensures
        entry_items(f, lines) == items_scaled(entry_items(e, lines), m),
    decreases lines.len(),
{
    if lines.len() > 0 {
        lemma_entry_items_scaled(e, f, lines.drop_last(), m);
        assert(f.portions * HUNDRED == m * (e.portions * HUNDRED)) by (nonlinear_arith)
            requires
                f.portions == m * e.portions,
        ;
        assert(entry_items(f, lines) =~= items_scaled(entry_items(e, lines), m));
    }
}

proof fn lemma_weekplan_items_scaled(
    more: Seq<WeekplanEntry>,
    entries: Seq<WeekplanEntry>,
    lines: Seq<(i64, StepIngredient, Ingredient)>,
    m: int,
)
    requires
        portions_multiplied(more, entries, m),
    ensures
        weekplan_items(more, lines) == items_scaled(weekplan_items(entries, lines), m),
    decreases entries.len(),
{
    if entries.len() > 0 {
        let n = entries.len() - 1;
        assert(portions_multiplied(more.drop_last(), entries.drop_last(), m)) by {
            assert forall|i: int| 0 <= i < n implies (#[trigger] more.drop_last()[i]).recipe_id
                == entries.drop_last()[i].recipe_id && more.drop_last()[i].portions == m
                * entries.drop_last()[i].portions by {
                assert(more.drop_last()[i] == more[i]);
                assert(entries.drop_last()[i] == entries[i]);
            }
        }
        lemma_weekplan_items_scaled(more.drop_last(), entries.drop_last(), lines, m);
        assert(more.last() == more[n] && entries.last() == entries[n]);
        lemma_entry_items_scaled(entries.last(), more.last(), lines, m);
        assert(weekplan_items(more, lines) =~= items_scaled(weekplan_items(entries, lines), m));
    }
}

/// Multiplying the portions of every entry of a week plan by `m` gives the
/// same groups, with every amount multiplied by `m`; in particular doubled
/// portions double every group amount.
pub proof fn weekplan_portions_multiply_amounts(
    more: Seq<WeekplanEntry>,
    entries: Seq<WeekplanEntry>,
    lines: Seq<(i64, StepIngredient, Ingredient)>,
    m: int,
)
    requires
        portions_multiplied(more, entries, m),
    ensures
        amounts_scaled(
            consolidated(weekplan_items(more, lines)),
            consolidated(weekplan_items(entries, lines)),
            m,
        ),
{
    lemma_weekplan_items_scaled(more, entries, lines, m);
    scaled_lines_multiply_amounts(weekplan_items(entries, lines), m);
}

/// A week plan has at most one line per entry and recipe line.
pub proof fn weekplan_items_bound(
    entries: Seq<WeekplanEntry>,
    lines: Seq<(i64, StepIngredient, Ingredient)>,
)
    ensures
        weekplan_items(entries, lines).len() <= entries.len() * lines.len(),
    decreases entries.len(),
{
    if entries.len() > 0 {
        weekplan_items_bound(entries.drop_last(), lines);
        lemma_entry_items_len(entries.last(), lines);
        let (n, l) = (entries.len() as int, lines.len() as int);
        assert((n - 1) * l + l == n * l) by (nonlinear_arith);
    }
}

/// A line in a measuring unit (a spoon, a pinch) and a line without unit of
/// the same ingredient land in one group, in the reference measure: the
/// spoon amount is converted with the unit's base value and the two are
/// summed.
pub proof fn measured_lines_share_a_group(
    spoon: StepIngredient,
    plain: StepIngredient,
    ingredient: Ingredient,
    scale: int,
)
    requires
        spoon.ingredient_id == plain.ingredient_id,
        spoon.unit.is_some(),
        !is_count_unit(spoon.unit.unwrap().identifier),
        plain.unit.is_none(),
    ensures
        ({
            let gs = consolidated(seq![(spoon, ingredient, scale), (plain, ingredient, scale)]);
            &&& gs.len() == 1
            &&& gs[0].ingredient_id == spoon.ingredient_id
            &&& gs[0].bucket == NO_UNIT
            &&& gs[0].unit.is_none()
            &&& gs[0].amount == scaled_amount(spoon, scale) + scaled_amount(plain, scale)
            &&& (spoon.amount.is_some() && plain.amount.is_some()) ==> gs[0].amount
                == spoon.amount.unwrap() * spoon.unit.unwrap().base_value * scale
                + plain.amount.unwrap() * HUNDRED * scale
        }),
{
    let items = seq![(spoon, ingredient, scale), (plain, ingredient, scale)];
    assert(items.drop_last() =~= seq![(spoon, ingredient, scale)]);
    assert(items.drop_last().drop_last() =~= Seq::<(StepIngredient, Ingredient, int)>::empty());
    let g0 = consolidated(items.drop_last().drop_last());
    assert(g0 =~= Seq::<GroupView>::empty());
    assert(group_index(g0, spoon.ingredient_id, bucket_of(spoon)) == -1);
    let g1 = consolidated(items.drop_last());
    assert(g1 == add_line(g0, spoon, ingredient, scale));
    assert(g1.len() == 1);
    assert(has_key(g1[0], plain.ingredient_id, bucket_of(plain)));
    lemma_group_index(g1, plain.ingredient_id, bucket_of(plain));
}

/// A line counted in pieces is never merged with a line without unit of the
/// same ingredient: they make two groups, pieces first.
pub proof fn count_lines_stay_apart(
    pieces: StepIngredient,
    plain: StepIngredient,
    ingredient: Ingredient,
    scale: int,
)
    requires
        pieces.ingredient_id == plain.ingredient_id,
        pieces.unit.is_some(),
        is_count_unit(pieces.unit.unwrap().identifier),
        pieces.unit.unwrap().id != NO_UNIT,
        plain.unit.is_none(),
    ensures
        ({
            let gs = consolidated(seq![(pieces, ingredient, scale), (plain, ingredient, scale)]);
            &&& gs.len() == 2
            &&& gs[0].bucket == pieces.unit.unwrap().id
            &&& gs[0].unit == pieces.unit
            &&& gs[0].amount == scaled_amount(pieces, scale)
            &&& gs[1].bucket == NO_UNIT
            &&& gs[1].unit.is_none()
            &&& gs[1].amount == scaled_amount(plain, scale)
        }),
{
    let items = seq![(pieces, ingredient, scale), (plain, ingredient, scale)];
    assert(items.drop_last() =~= seq![(pieces, ingredient, scale)]);
    assert(items.drop_last().drop_last() =~= Seq::<(StepIngredient, Ingredient, int)>::empty());
    let g0 = consolidated(items.drop_last().drop_last());
    assert(g0 =~= Seq::<GroupView>::empty());
    assert(group_index(g0, pieces.ingredient_id, bucket_of(pieces)) == -1);
    let g1 = consolidated(items.drop_last());
    assert(g1 == add_line(g0, pieces, ingredient, scale));
    assert(g1.len() == 1);
    assert(!has_key(g1[0], plain.ingredient_id, bucket_of(plain)));
    lemma_group_index(g1, plain.ingredient_id, bucket_of(plain));
}

/// The sum of what the lines with a given key add, at their own scales.
pub open spec fn key_total(items: Seq<(StepIngredient, Ingredient, int)>, id: i64, bucket: i64) -> int
    decreases items.len(),
{
    if items.len() == 0 {
        0
    } else {
        let x = items.last();
        let here = if x.0.ingredient_id == id && bucket_of(x.0) == bucket {
            scaled_amount(x.0, x.2)
        } else {
            0
        };
        key_total(items.drop_last(), id, bucket) + here
    }
}

/// Some line of `items` has the key.
pub open spec fn key_used(items: Seq<(StepIngredient, Ingredient, int)>, id: i64, bucket: i64) -> bool {
    exists|j: int|
        0 <= j < items.len() && (#[trigger] items[j]).0.ingredient_id == id && bucket_of(items[j].0)
            == bucket
}

proof fn lemma_key_total_unused(items: Seq<(StepIngredient, Ingredient, int)>, id: i64, bucket: i64)
    requires
        !key_used(items, id, bucket),
    ensures
        key_total(items, id, bucket) == 0,
    decreases items.len(),
{
    if items.len() > 0 {
        let t = items.drop_last();
        assert(!key_used(t, id, bucket)) by {
            if key_used(t, id, bucket) {
                let j = choose|j: int|
                    0 <= j < t.len() && (#[trigger] t[j]).0.ingredient_id == id && bucket_of(t[j].0)
                        == bucket;
                assert(items[j] == t[j]);
            }
        }
        lemma_key_total_unused(t, id, bucket);
        assert(items.last() == items[items.len() - 1]);
    }
}

/// What consolidation computes, stated without its order of work: the groups
/// have distinct keys, every line's key has a group, every group's key comes
/// from some line, and each group's amount is the sum over the lines of its
/// key.
pub proof fn consolidation_sums_each_key(items: Seq<(StepIngredient, Ingredient, int)>)
    ensures
        ({
            let gs = consolidated(items);
            &&& forall|i: int, j: int|
                0 <= i < j < gs.len() ==> !has_key(#[trigger] gs[i], gs[j].ingredient_id, #[trigger] gs[j].bucket)
            &&& forall|j: int|
                0 <= j < items.len() ==> group_index(
                    gs,
                    (#[trigger] items[j]).0.ingredient_id,
                    bucket_of(items[j].0),
                ) >= 0
            &&& forall|i: int|
                0 <= i < gs.len() ==> key_used(items, (#[trigger] gs[i]).ingredient_id, gs[i].bucket)
            &&& forall|i: int|
                0 <= i < gs.len() ==> (#[trigger] gs[i]).amount == key_total(
                    items,
                    gs[i].ingredient_id,
                    gs[i].bucket,
                )
        }),
    decreases items.len(),
{
    if items.len() > 0 {
        let t = items.drop_last();
        consolidation_sums_each_key(t);
        let g0 = consolidated(t);
        let gs = consolidated(items);
        let x = items.last();
        let (id, b) = (x.0.ingredient_id, bucket_of(x.0));
        assert(x == items[items.len() - 1]);
        assert forall|j: int| 0 <= j < t.len() implies t[j] == items[j] by {}
        lemma_group_index(g0, id, b);
        let k = group_index(g0, id, b);
        assert(gs == add_line(g0, x.0, x.1, x.2));
        if k >= 0 {
            assert(gs.len() == g0.len());
            assert forall|i: int| 0 <= i < gs.len() && i != k implies #[trigger] gs[i] == g0[i] by {}
            assert forall|i: int, j: int| 0 <= i < j < gs.len() implies !has_key(
                #[trigger] gs[i],
                gs[j].ingredient_id,
                #[trigger] gs[j].bucket,
            ) by {
                assert(has_key(g0[i], gs[i].ingredient_id, gs[i].bucket));
                assert(has_key(g0[j], gs[j].ingredient_id, gs[j].bucket));
                assert(!has_key(g0[i], g0[j].ingredient_id, g0[j].bucket));
            }
            assert forall|j: int| 0 <= j < items.len() implies group_index(
                gs,
                (#[trigger] items[j]).0.ingredient_id,
                bucket_of(items[j].0),
            ) >= 0 by {
                let (jd, jb) = (items[j].0.ingredient_id, bucket_of(items[j].0));
                lemma_group_index(gs, jd, jb);
                lemma_group_index(g0, jd, jb);
                if j < t.len() {
                    assert(t[j] == items[j]);
                    let m = group_index(g0, jd, jb);
                    assert(has_key(gs[m], jd, jb));
                } else {
                    assert(has_key(gs[k], jd, jb));
                }
            }
            assert forall|i: int| 0 <= i < gs.len() implies key_used(
                items,
                (#[trigger] gs[i]).ingredient_id,
                gs[i].bucket,
            ) by {
                assert(key_used(t, g0[i].ingredient_id, g0[i].bucket));
                let j = choose|j: int|
                    0 <= j < t.len() && (#[trigger] t[j]).0.ingredient_id == g0[i].ingredient_id
                        && bucket_of(t[j].0) == g0[i].bucket;
                assert(items[j] == t[j]);
            }
            assert forall|i: int| 0 <= i < gs.len() implies (#[trigger] gs[i]).amount == key_total(
                items,
                gs[i].ingredient_id,
                gs[i].bucket,
            ) by {
                assert(g0[i].amount == key_total(t, g0[i].ingredient_id, g0[i].bucket));
                if i != k {
                    assert(!has_key(g0[i], id, b)) by {
                        if i < k {
                            assert(!has_key(g0[i], g0[k].ingredient_id, g0[k].bucket));
                        } else {
                            assert(!has_key(g0[k], g0[i].ingredient_id, g0[i].bucket));
                        }
                    }
                }
            }
        } else {
            assert(gs.len() == g0.len() + 1);
            assert forall|i: int| 0 <= i < g0.len() implies #[trigger] gs[i] == g0[i] by {}
            assert(!key_used(t, id, b)) by {
                if key_used(t, id, b) {
                    let j = choose|j: int|
                        0 <= j < t.len() && (#[trigger] t[j]).0.ingredient_id == id && bucket_of(
                            t[j].0,
                        ) == b;
                    assert(group_index(g0, t[j].0.ingredient_id, bucket_of(t[j].0)) >= 0);
                }
            }
            lemma_key_total_unused(t, id, b);
            assert forall|i: int, j: int| 0 <= i < j < gs.len() implies !has_key(
                #[trigger] gs[i],
                gs[j].ingredient_id,
                #[trigger] gs[j].bucket,
            ) by {
                if j == g0.len() {
                    assert(!has_key(g0[i], id, b));
                } else {
                    assert(!has_key(g0[i], g0[j].ingredient_id, g0[j].bucket));
                }
            }
            assert forall|j: int| 0 <= j < items.len() implies group_index(
                gs,
                (#[trigger] items[j]).0.ingredient_id,
                bucket_of(items[j].0),
            ) >= 0 by {
                let (jd, jb) = (items[j].0.ingredient_id, bucket_of(items[j].0));
                lemma_group_index(gs, jd, jb);
                if j < t.len() {
                    assert(t[j] == items[j]);
                    lemma_group_index(g0, jd, jb);
                    let m = group_index(g0, jd, jb);
                    assert(has_key(gs[m], jd, jb));
                } else {
                    assert(has_key(gs[g0.len() as int], jd, jb));
                }
            }
            assert forall|i: int| 0 <= i < gs.len() implies key_used(
                items,
                (#[trigger] gs[i]).ingredient_id,
                gs[i].bucket,
            ) by {
                if i < g0.len() {
                    assert(key_used(t, g0[i].ingredient_id, g0[i].bucket));
                    let j = choose|j: int|
                        0 <= j < t.len() && (#[trigger] t[j]).0.ingredient_id == g0[i].ingredient_id
                            && bucket_of(t[j].0) == g0[i].bucket;
                    assert(items[j] == t[j]);
                } else {
                    let j = items.len() - 1;
                    assert(items[j] == x);
                }
            }
            assert forall|i: int| 0 <= i < gs.len() implies (#[trigger] gs[i]).amount == key_total(
                items,
                gs[i].ingredient_id,
                gs[i].bucket,
            ) by {
                if i < g0.len() {
                    assert(g0[i].amount == key_total(t, g0[i].ingredient_id, g0[i].bucket));
                    assert(!has_key(g0[i], id, b));
                }
            }
        }
    }
}

} // verus!
