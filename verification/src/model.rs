//! The records that handlers exchange with their callers.

use vstd::prelude::*;

verus! {

/// One task of one user.
#[derive(Debug, PartialEq, Eq)]
pub struct Todo {
    pub id: i64,
    /// The account that owns the task.
    pub user_id: i64,
    pub task: String,
    pub completed: bool,
}

/// What a [`Todo`] holds, as plain values.
pub struct TodoView {
    pub id: i64,
    pub user_id: i64,
    pub task: Seq<char>,
    pub completed: bool,
}

impl View for Todo {
    type V = TodoView;

    open spec fn view(&self) -> TodoView {
        TodoView {
            id: self.id,
            user_id: self.user_id,
            task: self.task@,
            completed: self.completed,
        }
    }
}

impl Clone for Todo {
    fn clone(&self) -> (copy: Self)
        ensures
            copy == *self,
    {
        Todo {
            id: self.id,
            user_id: self.user_id,
            task: self.task.clone(),
            completed: self.completed,
        }
    }
}

/// The payload of a token: whom it identifies and until when.
#[derive(Clone, Copy, Debug, PartialEq, Eq, Structural)]
pub struct Claims {
    /// The account the token speaks for.
    pub id: i64,
    /// The second, counted from the Unix epoch, at which the token stops
    /// being valid.
    pub exp: usize,
}

} // verus!
