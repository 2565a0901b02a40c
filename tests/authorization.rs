use recipes::authorization::{
    authorized, is_root, Authorization, DefaultActions, IngredientsPolicy, Recipe, RecipesPolicy, Role,
    Unauthorized, User, UsersPolicy, WeekplanPolicy,
};
use recipes::units::{Ingredient, Reference};
use recipes::weekplan::WeekplanEntry;

const ROOT: User = User { id: 1, role: Role::Root };
const ANN: User = User { id: 2, role: Role::User };
const BOB: User = User { id: 3, role: Role::User };

fn flour() -> Ingredient {
    Ingredient { id: 1, name: "Flour".to_string(), reference: Reference::G, carbs: 7500, fat: 100, proteins: 1000, alc: 0 }
}

#[test]
fn root_is_recognized() {
    assert!(is_root(Some(&ROOT)));
    assert!(!is_root(Some(&ANN)));
    assert!(!is_root(None));
}

#[test]
fn ingredient_changes_need_root() {
    let p = IngredientsPolicy;
    let f = flour();
    assert!(p.authorized(DefaultActions::List, None, None));
    assert!(p.authorized(DefaultActions::Get, None, Some(&f)));
    assert!(!p.authorized(DefaultActions::Create, None, None));
    assert!(p.authorized(DefaultActions::Create, Some(&ANN), None));
    assert!(!p.authorized(DefaultActions::Update, Some(&ANN), Some(&f)));
    assert!(p.authorized(DefaultActions::Update, Some(&ROOT), Some(&f)));
    assert!(!p.authorized(DefaultActions::Delete, Some(&ANN), Some(&f)));
    assert!(p.authorized(DefaultActions::Delete, Some(&ROOT), Some(&f)));
}

#[test]
fn recipe_changes_need_owner_or_root() {
    let p = RecipesPolicy;
    let mine = Recipe { id: 9, owner_id: Some(ANN.id) };
    let orphan = Recipe { id: 10, owner_id: None };
    assert!(p.authorized(DefaultActions::Update, Some(&ANN), Some(&mine)));
    assert!(!p.authorized(DefaultActions::Update, Some(&BOB), Some(&mine)));
    assert!(p.authorized(DefaultActions::Delete, Some(&ROOT), Some(&mine)));
    assert!(!p.authorized(DefaultActions::Delete, Some(&ANN), Some(&orphan)));
    assert!(!p.authorized(DefaultActions::Update, Some(&ANN), None));
    assert!(!p.authorized(DefaultActions::Create, None, None));
    assert!(p.authorized(DefaultActions::List, None, None));
}

#[test]
fn account_changes_need_self_or_root() {
    let p = UsersPolicy;
    assert!(!p.authorized(DefaultActions::Create, Some(&ANN), None));
    assert!(p.authorized(DefaultActions::Create, Some(&ROOT), None));
    assert!(p.authorized(DefaultActions::Update, Some(&ANN), Some(&ANN)));
    assert!(!p.authorized(DefaultActions::Update, Some(&ANN), Some(&BOB)));
    assert!(p.authorized(DefaultActions::Delete, Some(&ROOT), Some(&BOB)));
    assert!(!p.authorized(DefaultActions::Delete, None, Some(&BOB)));
    assert!(p.authorized(DefaultActions::Get, None, Some(&BOB)));
}

#[test]
fn weekplans_need_a_user() {
    let p = WeekplanPolicy;
    let e = WeekplanEntry { id: 1, user_id: 2, date: 738_000, recipe_id: 9, portions: 2 };
    assert!(!p.authorized(DefaultActions::List, None, None));
    assert!(p.authorized(DefaultActions::List, Some(&ANN), None));
    assert!(p.authorized(DefaultActions::Create, Some(&ANN), None));
    assert!(!p.authorized(DefaultActions::Get, Some(&ANN), None));
    assert!(p.authorized(DefaultActions::Get, Some(&BOB), Some(&e)));
    assert!(p.authorized(DefaultActions::Delete, Some(&ANN), Some(&e)));
    assert!(!p.authorized(DefaultActions::Update, None, Some(&e)));
}

#[test]
fn authorized_refuses_with_an_error() {
    let mine = Recipe { id: 9, owner_id: Some(ANN.id) };
    assert_eq!(authorized(RecipesPolicy, DefaultActions::Delete, Some(&BOB), Some(&mine)), Err(Unauthorized));
    assert_eq!(authorized(RecipesPolicy, DefaultActions::Delete, Some(&ANN), Some(&mine)), Ok(()));
}
