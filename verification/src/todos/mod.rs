//! The handlers for the tasks of one user.
//!
//! Each handler takes the identity that the guard established and reaches
//! only the tasks of that account: a task of another user is treated like
//! one that does not exist.

use vstd::prelude::*;
use crate::auth::extractor::AuthUser;
use crate::error::ApiError;
use crate::model::{Todo, TodoView};
use crate::state::AppState;
use crate::store::todo_views;

verus! {

/// The body of a request that adds a task.
#[derive(Debug, PartialEq, Eq)]
pub struct CreateTodo {
    pub task: String,
}

/// The body of a request that updates a task.
#[derive(Clone, Copy, Debug, PartialEq, Eq, Structural)]
pub struct UpdateTodo {
    pub completed: bool,
}

/// Lists the tasks of the caller, in the order of the table.
pub fn get_todos(state: &AppState, user: AuthUser) -> (r: Result<Vec<Todo>, ApiError>)
    ensures
        r matches Ok(tasks) && todo_views(tasks@) == state.store@.list(user.0),
{
    Ok(state.store.list(user.0))
}

/// Adds a task for the caller, not completed, and answers with the whole
/// record.
///
/// Fails with `Internal`, and changes nothing, if the caller has no
/// account or no identifier is left.
pub fn add_todo(state: &mut AppState, user: AuthUser, payload: CreateTodo) -> (r: Result<
    Todo,
    ApiError,
>)
    requires
        old(state).store@.valid(),
    ensures
        final(state).store@.valid(),
        final(state).jwt_secret == old(state).jwt_secret,
        final(state).store@ == old(state).store@.create(user.0, payload.task@).0,
        match r {
            Ok(task) => old(state).store@.create(user.0, payload.task@).1 == Ok::<
                TodoView,
                ApiError,
            >(task@),
            Err(e) => old(state).store@.create(user.0, payload.task@).1 == Err::<
                TodoView,
                ApiError,
            >(e),
        },
{
    state.store.create(user.0, payload.task)
}

/// Sets the completion flag of the caller's task `id`.
///
/// Fails with `NotFound`, and changes nothing, unless a task with that
/// identifier exists and belongs to the caller.
pub fn update_todo(state: &mut AppState, user: AuthUser, id: i64, payload: UpdateTodo) -> (r:
    Result<String, ApiError>)
    requires
        old(state).store@.valid(),
    ensures
        final(state).store@.valid(),
        final(state).jwt_secret == old(state).jwt_secret,
        final(state).store@ == old(state).store@.update_completed(user.0, id, payload.completed).0,
        match r {
            Ok(message) => message@ == "Todo Updated"@ && old(state).store@.owns(user.0, id),
            Err(e) => e == ApiError::NotFound && !old(state).store@.owns(user.0, id),
        },
{
    match state.store.update_completed(user.0, id, payload.completed) {
        Ok(()) => Ok("Todo Updated".to_owned()),
        Err(e) => Err(e),
    }
}

/// Removes the caller's task `id`.
///
/// Always succeeds: where no task with that identifier belongs to the
/// caller, nothing is removed.
pub fn delete_todo(state: &mut AppState, id: i64, user: AuthUser) -> (r: Result<String, ApiError>)
    requires
        old(state).store@.valid(),
    ensures
        final(state).store@.valid(),
        final(state).jwt_secret == old(state).jwt_secret,
        final(state).store@ == old(state).store@.delete(user.0, id),
        r matches Ok(message) && message@ == "Todo deleted"@,
{
    state.store.delete(user.0, id);
    Ok("Todo deleted".to_owned())
}

} // verus!
