//! Weekly plans: which recipe is cooked on which day, and for how many.
//!
//! A date is its day number in the proleptic Gregorian calendar, January 1 of
//! the year 1 being day 1 (a Monday).
use vstd::prelude::*;
use chrono::Datelike;

verus! {

/// One planned meal; `portions` is a whole number of servings.
#[derive(Clone, Copy, Debug, PartialEq, Eq, Structural)]
pub struct WeekplanEntry {
    pub id: i64,
    pub user_id: i64,
    pub date: i32,
    pub recipe_id: i64,
    pub portions: i32,
}

/// A recipe with the names of its tags.
#[derive(Clone, Debug)]
pub struct TaggedRecipe {
    pub id: i64,
    pub tags: Vec<String>,
}

/// Servings of a meal that auto-fill plans.
pub const DEFAULT_PORTIONS: i32 = 2;

/// The earliest day number the calendar functions accept.
pub const MIN_DAY: i32 = -95_000_000;

/// The latest day number the calendar functions accept.
pub const MAX_DAY: i32 = 95_000_000;

/// The day of the week of a day number, Monday being 0.
pub open spec fn weekday(day: int) -> int {
    (day - 1) % 7
}

/// The Monday of the week of a day.
pub open spec fn week_start(day: int) -> int {
    day - weekday(day)
}

/// Relies on chrono's `NaiveDate::from_num_days_from_ce_opt`, which is
/// defined on the whole range `MIN_DAY..=MAX_DAY`, and on
/// `Weekday::num_days_from_monday` of the date's `weekday()`.
#[verifier::external_body]
fn weekday_from_monday(day: i32) -> (r: u32)
    requires
        MIN_DAY <= day <= MAX_DAY,
    ensures
        r == weekday(day as int),
{
    chrono::NaiveDate::from_num_days_from_ce_opt(day).unwrap().weekday().num_days_from_monday()
}

/// The Monday of the week of `day`.
pub fn beginning_of_week(day: i32) -> (r: i32)
    requires
        MIN_DAY <= day <= MAX_DAY,
    ensures
        r == week_start(day as int),
{
    day - (weekday_from_monday(day) as i32)
}

/// The Sunday of the week of `day`.
pub fn end_of_week(day: i32) -> (r: i32)
    requires
        MIN_DAY <= day <= MAX_DAY,
    ensures
        r == week_start(day as int) + 6,
{
    beginning_of_week(day) + 6
}

/// Whether a day is among the chosen days of the week; no choice keeps all.
pub open spec fn day_chosen(days: Option<Seq<u32>>, date: int) -> bool {
    match days {
        Some(d) => d.contains(weekday(date) as u32),
        None => true,
    }
}

/// The entries on chosen days of the week, in their order.
pub open spec fn on_chosen_days(entries: Seq<WeekplanEntry>, days: Option<Seq<u32>>) -> Seq<
    WeekplanEntry,
>
    decreases entries.len(),
{
    if entries.len() == 0 {
        seq![]
    } else {
        let rest = on_chosen_days(entries.drop_last(), days);
        if day_chosen(days, entries.last().date as int) {
            rest.push(entries.last())
        } else {
            rest
        }
    }
}

/// The days of a plan that a list is asked for, as a view.
pub open spec fn days_view(days: &Option<Vec<u32>>) -> Option<Seq<u32>> {
    match days {
        Some(d) => Some(d@),
        None => None,
    }
}

/// Keeps the entries whose day of the week is among `days` (Monday being 0);
/// without `days`, keeps them all.
pub fn select_days(entries: &Vec<WeekplanEntry>, days: &Option<Vec<u32>>) -> (r: Vec<
    WeekplanEntry,
>)
    requires
        forall|i: int| 0 <= i < entries.len() ==> MIN_DAY <= #[trigger] entries@[i].date <= MAX_DAY,
    ensures
        r@ == on_chosen_days(entries@, days_view(days)),
{
    let mut kept: Vec<WeekplanEntry> = Vec::new();
    let mut i: usize = 0;
    while i < entries.len()
        invariant
            i <= entries.len(),
            forall|k: int| 0 <= k < entries.len() ==> MIN_DAY <= #[trigger] entries@[k].date <= MAX_DAY,
            kept@ == on_chosen_days(entries@.take(i as int), days_view(days)),
        decreases entries.len() - i,
    {
        let e = entries[i];
        proof {
            assert(entries@.take(i + 1).drop_last() =~= entries@.take(i as int));
            assert(entries@.take(i + 1).last() == e);
        }
        let chosen = match days {
            Some(d) => {
                let wd = weekday_from_monday(e.date);
                let mut found = false;
                let mut j: usize = 0;
                while j < d.len()
                    invariant
                        j <= d.len(),
                        found == exists|m: int| 0 <= m < j && d@[m] == wd,
                    decreases d.len() - j,
                {
                    if d[j] == wd {
                        assert(d@[j as int] == wd);
                        found = true;
                    }
                    j = j + 1;
                }
                found
            },
            None => true,
        };
        if chosen {
            kept.push(e);
        }
        i = i + 1;
    }
    proof {
        assert(entries@.take(entries.len() as int) =~= entries@);
    }
    kept
}

/// The tag names of a recipe, as a view.
pub open spec fn tag_names(r: TaggedRecipe) -> Seq<Seq<char>> {
    r.tags@.map_values(|t: String| t@)
}

/// The recipe carries every wanted tag.
pub open spec fn has_all_tags(r: TaggedRecipe, wanted: Seq<Seq<char>>) -> bool {
    forall|i: int| 0 <= i < wanted.len() ==> tag_names(r).contains(#[trigger] wanted[i])
}

/// The ids of the recipes that carry every wanted tag and are not used yet,
/// in the order of `recipes`.
pub open spec fn eligible(recipes: Seq<TaggedRecipe>, wanted: Seq<Seq<char>>, used: Seq<i64>) -> Seq<
    i64,
>
    decreases recipes.len(),
{
    if recipes.len() == 0 {
        seq![]
    } else {
        let rest = eligible(recipes.drop_last(), wanted, used);
        let r = recipes.last();
        if has_all_tags(r, wanted) && !used.contains(r.id) {
            rest.push(r.id)
        } else {
            rest
        }
    }
}

/// The recipe drawn: the eligible recipe at `draw` modulo their number, or
/// none when no recipe is eligible.
pub open spec fn drawn(
    recipes: Seq<TaggedRecipe>,
    wanted: Seq<Seq<char>>,
    used: Seq<i64>,
    draw: u64,
) -> Option<i64> {
    let e = eligible(recipes, wanted, used);
    if e.len() == 0 {
        None
    } else {
        Some(e[(draw as int) % (e.len() as int)])
    }
}

/// The names of the wanted tags, as a view.
pub open spec fn names(tags: Seq<String>) -> Seq<Seq<char>> {
    tags.map_values(|t: String| t@)
}

fn has_tag(tags: &Vec<String>, wanted: &String) -> (r: bool)
    ensures
        r == names(tags@).contains(wanted@),
{
    let mut j: usize = 0;
    while j < tags.len()
        invariant
            j <= tags.len(),
            forall|k: int| 0 <= k < j ==> tags@[k]@ != wanted@,
        decreases tags.len() - j,
    {
        if tags[j] == *wanted {
            proof {
                assert(names(tags@)[j as int] == wanted@);
            }
            return true;
        }
        j = j + 1;
    }
    proof {
        assert forall|k: int| 0 <= k < names(tags@).len() implies names(tags@)[k] != wanted@ by {
            assert(names(tags@)[k] == tags@[k]@);
        }
    }
    false
}

fn carries_all(recipe: &TaggedRecipe, wanted: &Vec<String>) -> (r: bool)
    ensures
        r == has_all_tags(*recipe, names(wanted@)),
{
    let mut i: usize = 0;
    while i < wanted.len()
        invariant
            i <= wanted.len(),
            forall|k: int| 0 <= k < i ==> tag_names(*recipe).contains(#[trigger] names(wanted@)[k]),
        decreases wanted.len() - i,
    {
        if !has_tag(&recipe.tags, &wanted[i]) {
            proof {
                assert(names(wanted@)[i as int] == wanted@[i as int]@);
                assert(names(recipe.tags@) == tag_names(*recipe));
            }
            return false;
        }
        proof {
            assert(names(recipe.tags@) == tag_names(*recipe));
        }
        i = i + 1;
    }
    true
}

fn contains_id(ids: &Vec<i64>, id: i64) -> (r: bool)
    ensures
        r == ids@.contains(id),
{
    let mut j: usize = 0;
    while j < ids.len()
        invariant
            j <= ids.len(),
            forall|k: int| 0 <= k < j ==> ids@[k] != id,
        decreases ids.len() - j,
    {
        if ids[j] == id {
            return true;
        }
        j = j + 1;
    }
    false
}

/// Draws a recipe that carries every tag of `tags` and is not in `used`:
/// `draw` picks among the eligible recipes, in their order, modulo their
/// number. None when no recipe is eligible.
pub fn pick_recipe(recipes: &Vec<TaggedRecipe>, tags: &Vec<String>, used: &Vec<i64>, draw: u64) -> (r:
    Option<i64>)
    ensures
        r == drawn(recipes@, names(tags@), used@, draw),
{
    let mut ids: Vec<i64> = Vec::new();
    let mut i: usize = 0;
    while i < recipes.len()
        invariant
            i <= recipes.len(),
            ids@ == eligible(recipes@.take(i as int), names(tags@), used@),
        decreases recipes.len() - i,
    {
        proof {
            assert(recipes@.take(i + 1).drop_last() =~= recipes@.take(i as int));
            assert(recipes@.take(i + 1).last() == recipes@[i as int]);
        }
        let r = &recipes[i];
        if carries_all(r, tags) && !contains_id(used, r.id) {
            ids.push(r.id);
        }
        i = i + 1;
    }
    proof {
        assert(recipes@.take(recipes.len() as int) =~= recipes@);
    }
    if ids.len() == 0 {
        None
    } else {
        let k = (draw % (ids.len() as u64)) as usize;
        Some(ids[k])
    }
}

/// Whether the plan has a meal on the given day.
pub open spec fn has_meal_on(plan: Seq<WeekplanEntry>, date: int) -> bool {
    exists|i: int| 0 <= i < plan.len() && plan[i].date == date
}

/// The meals auto-fill adds from day `d` (0 for Monday) of the week that
/// starts on `start` to its Sunday: each day without a meal in `plan` gets
/// the recipe drawn with that day's draw, and a recipe drawn is used from
/// then on; a day for which no recipe is eligible stays empty.
pub open spec fn filled_from(
    start: int,
    d: int,
    user_id: i64,
    plan: Seq<WeekplanEntry>,
    recipes: Seq<TaggedRecipe>,
    wanted: Seq<Seq<char>>,
    used: Seq<i64>,
    draws: Seq<u64>,
) -> Seq<WeekplanEntry>
    decreases 7 - d,
{
    if d >= 7 || d < 0 {
        seq![]
    } else if has_meal_on(plan, start + d) {
        filled_from(start, d + 1, user_id, plan, recipes, wanted, used, draws)
    } else {
        match drawn(recipes, wanted, used, draws[d]) {
            Some(id) => seq![
                WeekplanEntry {
                    id: 0,
                    user_id,
                    date: (start + d) as i32,
                    recipe_id: id,
                    portions: DEFAULT_PORTIONS,
                },
            ] + filled_from(start, d + 1, user_id, plan, recipes, wanted, used.push(id), draws),
            None => filled_from(start, d + 1, user_id, plan, recipes, wanted, used, draws),
        }
    }
}

/// The recipe ids of a plan.
pub open spec fn recipe_ids(plan: Seq<WeekplanEntry>) -> Seq<i64> {
    plan.map_values(|e: WeekplanEntry| e.recipe_id)
}

/// Auto-fill of the week of `day` for a user whose meals of that week are
/// `plan`: returns the meals to add (their id is left 0 for the store to
/// assign), Monday to Sunday, drawn by [`pick_recipe`] with `draws[d]` for
/// day `d`, never reusing a recipe of the week.
pub fn fill_week(
    day: i32,
    user_id: i64,
    plan: &Vec<WeekplanEntry>,
    recipes: &Vec<TaggedRecipe>,
    tags: &Vec<String>,
    draws: &Vec<u64>,
) -> (r: Vec<WeekplanEntry>)
    requires
        MIN_DAY <= day <= MAX_DAY,
        draws.len() >= 7,
    ensures
        r@ == filled_from(
            week_start(day as int),
            0,
            user_id,
            plan@,
            recipes@,
            names(tags@),
            recipe_ids(plan@),
            draws@,
        ),
{
    let start = beginning_of_week(day);
    let mut used: Vec<i64> = Vec::new();
    let mut i: usize = 0;
    while i < plan.len()
        invariant
            i <= plan.len(),
            used@ == recipe_ids(plan@.take(i as int)),
        decreases plan.len() - i,
    {
        proof {
            assert(recipe_ids(plan@.take(i + 1)) =~= recipe_ids(plan@.take(i as int)).push(
                plan@[i as int].recipe_id,
            ));
        }
        used.push(plan[i].recipe_id);
        i = i + 1;
    }
    proof {
        assert(plan@.take(plan.len() as int) =~= plan@);
    }
    let ghost whole = filled_from(
        start as int,
        0,
        user_id,
        plan@,
        recipes@,
        names(tags@),
        used@,
        draws@,
    );
    let mut added: Vec<WeekplanEntry> = Vec::new();
    let mut d: i32 = 0;
    while d < 7
        invariant
            0 <= d <= 7,
            start == week_start(day as int),
            MIN_DAY - 6 <= start <= MAX_DAY,
            draws.len() >= 7,
            whole == added@ + filled_from(
                start as int,
                d as int,
                user_id,
                plan@,
                recipes@,
                names(tags@),
                used@,
                draws@,
            ),
        decreases 7 - d,
    {
        let date = start + d;
        let mut taken = false;
        let mut k: usize = 0;
        while k < plan.len()
            invariant
                k <= plan.len(),
                taken == exists|m: int| 0 <= m < k && plan@[m].date == date,
            decreases plan.len() - k,
        {
            if plan[k].date == date {
                taken = true;
            }
            k = k + 1;
        }
        let ghost rest_before = filled_from(
            start as int,
            d as int,
            user_id,
            plan@,
            recipes@,
            names(tags@),
            used@,
            draws@,
        );
        if !taken {
            match pick_recipe(recipes, tags, &used, draws[d as usize]) {
                Some(id) => {
                    let e = WeekplanEntry {
                        id: 0,
                        user_id,
                        date,
                        recipe_id: id,
                        portions: DEFAULT_PORTIONS,
                    };
                    added.push(e);
                    used.push(id);
                    proof {
                        assert(whole =~= added@ + filled_from(
                            start as int,
                            d + 1,
                            user_id,
                            plan@,
                            recipes@,
                            names(tags@),
                            used@,
                            draws@,
                        ));
                    }
                },
                None => {},
            }
        }
        d = d + 1;
    }
    added
}

/// A recipe of `recipes` with this id carries every wanted tag.
pub open spec fn tagged_recipe(recipes: Seq<TaggedRecipe>, wanted: Seq<Seq<char>>, id: i64) -> bool {
    exists|j: int| 0 <= j < recipes.len() && (#[trigger] recipes[j]).id == id && has_all_tags(recipes[j], wanted)
}

proof fn lemma_eligible(recipes: Seq<TaggedRecipe>, wanted: Seq<Seq<char>>, used: Seq<i64>, k: int)
    requires
        0 <= k < eligible(recipes, wanted, used).len(),
    ensures
        tagged_recipe(recipes, wanted, eligible(recipes, wanted, used)[k]),
        !used.contains(eligible(recipes, wanted, used)[k]),
    decreases recipes.len(),
{
    let t = recipes.drop_last();
    let rest = eligible(t, wanted, used);
    let last = recipes.len() - 1;
    assert(recipes.last() == recipes[last]);
    if k < rest.len() {
        lemma_eligible(t, wanted, used, k);
        let j = choose|j: int| 0 <= j < t.len() && (#[trigger] t[j]).id == rest[k] && has_all_tags(t[j], wanted);
        assert(recipes[j] == t[j]);
    }
}

/// The meals auto-fill adds from day `d` on use recipes that carry every
/// wanted tag, none of them in `used` and none twice, each on a day of the
/// week from `d` on that has no meal in the plan, for the default portions.
pub proof fn auto_fill_never_repeats(
    start: int,
    d: int,
    user_id: i64,
    plan: Seq<WeekplanEntry>,
    recipes: Seq<TaggedRecipe>,
    wanted: Seq<Seq<char>>,
    used: Seq<i64>,
    draws: Seq<u64>,
)
    requires
        0 <= d,
        draws.len() >= 7,
        i32::MIN <= start && start + 6 <= i32::MAX,
    ensures
        ({
            let added = filled_from(start, d, user_id, plan, recipes, wanted, used, draws);
            &&& forall|i: int|
                0 <= i < added.len() ==> tagged_recipe(recipes, wanted, (#[trigger] added[i]).recipe_id)
            &&& forall|i: int| 0 <= i < added.len() ==> !used.contains((#[trigger] added[i]).recipe_id)
            &&& forall|i: int, j: int|
                0 <= i < j < added.len() ==> (#[trigger] added[i]).recipe_id != (#[trigger] added[j]).recipe_id
            &&& forall|i: int|
                0 <= i < added.len() ==> start + d <= (#[trigger] added[i]).date <= start + 6
                    && !has_meal_on(plan, added[i].date as int) && added[i].portions == DEFAULT_PORTIONS
                    && added[i].user_id == user_id
        }),
    decreases 7 - d,
{
    if d < 7 && !has_meal_on(plan, start + d) {
        match drawn(recipes, wanted, used, draws[d]) {
            Some(id) => {
                let e = eligible(recipes, wanted, used);
                let k = (draws[d] as int) % (e.len() as int);
                lemma_eligible(recipes, wanted, used, k);
                let used2 = used.push(id);
                auto_fill_never_repeats(start, d + 1, user_id, plan, recipes, wanted, used2, draws);
                let rest = filled_from(start, d + 1, user_id, plan, recipes, wanted, used2, draws);
                let added = filled_from(start, d, user_id, plan, recipes, wanted, used, draws);
                let head = WeekplanEntry {
                    id: 0,
                    user_id,
                    date: (start + d) as i32,
                    recipe_id: id,
                    portions: DEFAULT_PORTIONS,
                };
                assert(added == seq![head] + rest);
                assert forall|i: int| 0 <= i < rest.len() implies #[trigger] rest[i].recipe_id != id
                    && !used.contains(rest[i].recipe_id) by {
                    assert(!used2.contains(rest[i].recipe_id));
                    assert(used2[used.len() as int] == id);
                    if used.contains(rest[i].recipe_id) {
                        let m = choose|m: int| 0 <= m < used.len() && used[m] == rest[i].recipe_id;
                        assert(used2[m] == used[m]);
                    }
                }
                assert forall|i: int| 0 <= i < added.len() implies !used.contains(
                    (#[trigger] added[i]).recipe_id,
                ) by {
                    if i > 0 {
                        assert(added[i] == rest[i - 1]);
                    }
                }
                assert forall|i: int| 0 <= i < added.len() implies tagged_recipe(
                    recipes,
                    wanted,
                    (#[trigger] added[i]).recipe_id,
                ) by {
                    if i > 0 {
                        assert(added[i] == rest[i - 1]);
                    }
                }
                assert forall|i: int, j: int| 0 <= i < j < added.len() implies (#[trigger] added[i]).recipe_id
                    != (#[trigger] added[j]).recipe_id by {
                    assert(added[j] == rest[j - 1]);
                    if i > 0 {
                        assert(added[i] == rest[i - 1]);
                    }
                }
                assert forall|i: int| 0 <= i < added.len() implies start + d <= (
                #[trigger] added[i]).date <= start + 6 && !has_meal_on(plan, added[i].date as int)
                    && added[i].portions == DEFAULT_PORTIONS && added[i].user_id == user_id by {
                    if i > 0 {
                        assert(added[i] == rest[i - 1]);
                    }
                }
            },
            None => {
                auto_fill_never_repeats(start, d + 1, user_id, plan, recipes, wanted, used, draws);
                assert(filled_from(start, d, user_id, plan, recipes, wanted, used, draws)
                    == filled_from(start, d + 1, user_id, plan, recipes, wanted, used, draws));
            },
        }
    } else if d < 7 {
        auto_fill_never_repeats(start, d + 1, user_id, plan, recipes, wanted, used, draws);
        assert(filled_from(start, d, user_id, plan, recipes, wanted, used, draws) == filled_from(
            start,
            d + 1,
            user_id,
            plan,
            recipes,
            wanted,
            used,
            draws,
        ));
    } else {
        assert(filled_from(start, d, user_id, plan, recipes, wanted, used, draws).len() == 0);
    }
}

} // verus!
