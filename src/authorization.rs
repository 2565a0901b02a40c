//! Who may do what: one policy per kind of resource.
use vstd::prelude::*;
use crate::units::Ingredient;
use crate::weekplan::WeekplanEntry;

verus! {

/// The role of a user account.
#[derive(Clone, Copy, Debug, PartialEq, Eq, Structural)]
pub enum Role {
    Root,
    User,
}

/// What the policies read of a user account.
#[derive(Clone, Copy, Debug, PartialEq, Eq, Structural)]
pub struct User {
    pub id: i64,
    pub role: Role,
}

/// What the policies read of a recipe.
#[derive(Clone, Copy, Debug, PartialEq, Eq, Structural)]
pub struct Recipe {
    pub id: i64,
    pub owner_id: Option<i64>,
}

/// The actions a policy decides on.
#[derive(Clone, Copy, Debug, PartialEq, Eq, Structural)]
pub enum DefaultActions {
    List,
    Create,
    Get,
    Update,
    Delete,
}

/// The refusal of an action.
#[derive(Clone, Copy, Debug, PartialEq, Eq, Structural)]
pub struct Unauthorized;

/// An optional borrowed value, as an optional value.
pub open spec fn deref_opt<T>(o: Option<&T>) -> Option<T> {
    match o {
        Some(x) => Some(*x),
        None => None,
    }
}

/// A policy over actions `A` on resources `R`.
pub trait Authorization<A, R> {
    /// Whether `user` may do `action` on `resource`.
    spec fn permits(&self, action: A, user: Option<User>, resource: Option<R>) -> bool;

    /// Decides whether `user` may do `action` on `resource`.
    fn authorized(&self, action: A, user: Option<&User>, resource: Option<&R>) -> (r: bool)
        ensures
            r == self.permits(action, deref_opt(user), deref_opt(resource)),
    ;
}

/// The user is signed in with the root role.
pub open spec fn root(user: Option<User>) -> bool {
    match user {
        Some(u) => u.role == Role::Root,
        None => false,
    }
}

/// Whether the user is signed in with the root role.
pub fn is_root(user: Option<&User>) -> (r: bool)
    ensures
        r == root(deref_opt(user)),
{
    if let Some(user) = user {
        if user.role == Role::Root {
            return true;
        }
    }
    false
}

/// Anyone may list and read ingredients, any signed-in user may create one,
/// and only root may change or delete one.
pub struct IngredientsPolicy;

impl Authorization<DefaultActions, Ingredient> for IngredientsPolicy {
    open spec fn permits(
        &self,
        action: DefaultActions,
        user: Option<User>,
        resource: Option<Ingredient>,
    ) -> bool {
        match action {
            DefaultActions::List => true,
            DefaultActions::Create => user.is_some(),
            DefaultActions::Get => true,
            DefaultActions::Update => root(user),
            DefaultActions::Delete => root(user),
        }
    }

    fn authorized(
        &self,
        action: DefaultActions,
        user: Option<&User>,
        resource: Option<&Ingredient>,
    ) -> (r: bool) {
        match action {
            DefaultActions::List => true,
            DefaultActions::Create => user.is_some(),
            DefaultActions::Get => true,
            DefaultActions::Update => is_root(user),
            DefaultActions::Delete => is_root(user),
        }
    }
}

/// The user is root, or owns the recipe.
pub open spec fn root_or_owner(user: Option<User>, recipe: Option<Recipe>) -> bool {
    match user {
        Some(u) => u.role == Role::Root || match recipe {
            Some(r) => r.owner_id == Some(u.id),
            None => false,
        },
        None => false,
    }
}

fn is_root_or_owner(user: Option<&User>, recipe: Option<&Recipe>) -> (r: bool)
    ensures
        r == root_or_owner(deref_opt(user), deref_opt(recipe)),
{
    if let Some(user) = user {
        if user.role == Role::Root {
            return true;
        }
        if let Some(recipe) = recipe {
            if let Some(owner) = recipe.owner_id {
                if owner == user.id {
                    return true;
                }
            }
        }
    }
    false
}

/// Anyone may list and read recipes, any signed-in user may create one, and
/// only root or the recipe's owner may change or delete it.
pub struct RecipesPolicy;

impl Authorization<DefaultActions, Recipe> for RecipesPolicy {
    open spec fn permits(
        &self,
        action: DefaultActions,
        user: Option<User>,
        resource: Option<Recipe>,
    ) -> bool {
        match action {
            DefaultActions::List => true,
            DefaultActions::Create => user.is_some(),
            DefaultActions::Get => true,
            DefaultActions::Update => root_or_owner(user, resource),
            DefaultActions::Delete => root_or_owner(user, resource),
        }
    }

    fn authorized(&self, action: DefaultActions, user: Option<&User>, resource: Option<&Recipe>) -> (r:
        bool) {
        match action {
            DefaultActions::List => true,
            DefaultActions::Create => user.is_some(),
            DefaultActions::Get => true,
            DefaultActions::Update => is_root_or_owner(user, resource),
            DefaultActions::Delete => is_root_or_owner(user, resource),
        }
    }
}

/// The user is root, or is the account acted on.
pub open spec fn root_or_self(user: Option<User>, other: Option<User>) -> bool {
    match user {
        Some(u) => u.role == Role::Root || match other {
            Some(o) => o.id == u.id,
            None => false,
        },
        None => false,
    }
}

fn is_root_or_self(user: Option<&User>, other: Option<&User>) -> (r: bool)
    ensures
        r == root_or_self(deref_opt(user), deref_opt(other)),
{
    if let Some(user) = user {
        if user.role == Role::Root {
            return true;
        }
        if let Some(other) = other {
            if other.id == user.id {
                return true;
            }
        }
    }
    false
}

/// Anyone may list and read accounts, only root may create one, and only
/// root or the account itself may change or delete it.
pub struct UsersPolicy;

impl Authorization<DefaultActions, User> for UsersPolicy {
    open spec fn permits(
        &self,
        action: DefaultActions,
        user: Option<User>,
        resource: Option<User>,
    ) -> bool {
        match action {
            DefaultActions::List => true,
            DefaultActions::Create => root(user),
            DefaultActions::Get => true,
            DefaultActions::Update => root_or_self(user, resource),
            DefaultActions::Delete => root_or_self(user, resource),
        }
    }

    fn authorized(&self, action: DefaultActions, user: Option<&User>, resource: Option<&User>) -> (r:
        bool) {
        match action {
            DefaultActions::List => true,
            DefaultActions::Create => is_root(user),
            DefaultActions::Get => true,
            DefaultActions::Update => is_root_or_self(user, resource),
            DefaultActions::Delete => is_root_or_self(user, resource),
        }
    }
}

/// Week plans are for signed-in users; reading, changing and deleting an
/// entry also needs the entry.
pub struct WeekplanPolicy;

impl Authorization<DefaultActions, WeekplanEntry> for WeekplanPolicy {
    open spec fn permits(
        &self,
        action: DefaultActions,
        user: Option<User>,
        resource: Option<WeekplanEntry>,
    ) -> bool {
        match action {
            DefaultActions::List => user.is_some(),
            DefaultActions::Create => user.is_some(),
            _ => user.is_some() && resource.is_some(),
        }
    }

    fn authorized(
        &self,
        action: DefaultActions,
        user: Option<&User>,
        resource: Option<&WeekplanEntry>,
    ) -> (r: bool) {
        match action {
            DefaultActions::List => user.is_some(),
            DefaultActions::Create => user.is_some(),
            DefaultActions::Get => user.is_some() && resource.is_some(),
            DefaultActions::Update => user.is_some() && resource.is_some(),
            DefaultActions::Delete => user.is_some() && resource.is_some(),
        }
    }
}

/// Asks `policy` whether `user` may do `action` on `resource`, and refuses
/// when it says no.
pub fn authorized<P: Authorization<A, R>, A, R>(
    policy: P,
    action: A,
    user: Option<&User>,
    resource: Option<&R>,
) -> (r: Result<(), Unauthorized>)
    ensures
        r.is_ok() == policy.permits(action, deref_opt(user), deref_opt(resource)),
{
    if !policy.authorized(action, user, resource) {
        return Err(Unauthorized);
    }
    Ok(())
}

} // verus!
