//! The account table and the task table, with the rules that hold of them.
//!
//! [`Tables`] is the mathematical model: two sequences of rows and the next
//! identifier of each table, with the operations of the service as
//! functions from tables to tables. [`Store`] is the executable form. Each
//! of its methods is specified by the function of the same name on
//! [`Tables`], so that everything proved of the model holds of the code.
//!
//! A `&mut Store` is the exclusive access that every change needs: while
//! one operation runs, no other can see the tables in between.

use vstd::prelude::*;
use crate::error::ApiError;
use crate::model::{Todo, TodoView};

verus! {

/// One account.
#[derive(Debug, PartialEq, Eq)]
pub struct User {
    pub id: i64,
    pub username: String,
    /// The digest of the password, never the password itself.
    pub password_hash: String,
}

/// What a [`User`] holds, as plain values.
pub struct UserView {
    pub id: i64,
    pub username: Seq<char>,
    pub password_hash: Seq<char>,
}

impl View for User {
    type V = UserView;

    open spec fn view(&self) -> UserView {
        UserView { id: self.id, username: self.username@, password_hash: self.password_hash@ }
    }
}

/// The rows of a vector of accounts.
pub open spec fn user_views(rows: Seq<User>) -> Seq<UserView> {
    rows.map_values(|u: User| u@)
}

/// The rows of a vector of tasks.
pub open spec fn todo_views(rows: Seq<Todo>) -> Seq<TodoView> {
    rows.map_values(|t: Todo| t@)
}

/// Holds of the tasks that `owner` owns.
pub open spec fn owned_by(owner: i64) -> spec_fn(TodoView) -> bool {
    |t: TodoView| t.user_id == owner
}

/// Holds of every task but the one numbered `task_id` and owned by `owner`.
pub open spec fn kept_on_delete(owner: i64, task_id: i64) -> spec_fn(TodoView) -> bool {
    |t: TodoView| !(t.id == task_id && t.user_id == owner)
}

/// A task as `with_completed` leaves it.
pub open spec fn marked(task_id: i64, completed: bool) -> spec_fn(TodoView) -> TodoView {
    |t: TodoView|
        if t.id == task_id {
            TodoView { completed, ..t }
        } else {
            t
        }
}

/// The two tables as plain values.
pub struct Tables {
    pub users: Seq<UserView>,
    pub todos: Seq<TodoView>,
    /// The identifier that the next account gets.
    pub next_user_id: int,
    /// The identifier that the next task gets.
    pub next_todo_id: int,
}

impl Tables {
    /// No account, no task; identifiers start at 1.
    pub open spec fn empty() -> Tables {
        Tables { users: Seq::empty(), todos: Seq::empty(), next_user_id: 1, next_todo_id: 1 }
    }

    /// The tables that hold the given rows and hand out the given
    /// identifiers next.
    pub open spec fn of_rows(
        users: Seq<UserView>,
        todos: Seq<TodoView>,
        next_user_id: i64,
        next_todo_id: i64,
    ) -> Tables {
        Tables {
            users,
            todos,
            next_user_id: next_user_id as int,
            next_todo_id: next_todo_id as int,
        }
    }

    /// Some account goes by `name`.
    pub open spec fn has_username(self, name: Seq<char>) -> bool {
        exists|i: int| 0 <= i < self.users.len() && (#[trigger] self.users[i]).username == name
    }

    /// Some account is numbered `id`.
    pub open spec fn has_user(self, id: i64) -> bool {
        exists|i: int| 0 <= i < self.users.len() && (#[trigger] self.users[i]).id == id
    }

    /// Some task is numbered `task_id` and belongs to `owner`.
    pub open spec fn owns(self, owner: i64, task_id: i64) -> bool {
        exists|i: int|
            0 <= i < self.todos.len() && (#[trigger] self.todos[i]).id == task_id
                && self.todos[i].user_id == owner
    }

    /// Accounts are never changed or removed: every account of `self` is
    /// still in `later`, at its place.
    pub open spec fn kept_in(self, later: Tables) -> bool {
        &&& self.users.len() <= later.users.len()
        &&& forall|i: int|
            0 <= i < self.users.len() ==> (#[trigger] later.users[i]) == self.users[i]
    }

    /// The rules of the data model:
    /// identifiers are positive, below the next one to hand out and unique
    /// in their table; usernames are unique; every task belongs to an
    /// account that exists.
    pub open spec fn valid(self) -> bool {
        &&& 1 <= self.next_user_id <= i64::MAX
        &&& 1 <= self.next_todo_id <= i64::MAX
        &&& forall|i: int|
            0 <= i < self.users.len() ==> 1 <= (#[trigger] self.users[i]).id < self.next_user_id
        &&& forall|i: int, j: int|
            #![trigger self.users[i], self.users[j]]
            0 <= i < j < self.users.len() ==> self.users[i].id != self.users[j].id
        &&& forall|i: int, j: int|
            #![trigger self.users[i], self.users[j]]
            0 <= i < j < self.users.len() ==> self.users[i].username != self.users[j].username
        &&& forall|i: int|
            0 <= i < self.todos.len() ==> 1 <= (#[trigger] self.todos[i]).id < self.next_todo_id
        &&& forall|i: int, j: int|
            #![trigger self.todos[i], self.todos[j]]
            0 <= i < j < self.todos.len() ==> self.todos[i].id != self.todos[j].id
        &&& forall|i: int|
            0 <= i < self.todos.len() ==> self.has_user((#[trigger] self.todos[i]).user_id)
    }

    /// The account that goes by `name`, where there is one.
    pub open spec fn account(self, name: Seq<char>) -> UserView {
        self.users[choose|i: int|
            0 <= i < self.users.len() && (#[trigger] self.users[i]).username == name]
    }

    /// The tables with one more account, numbered `next_user_id`.
    pub open spec fn with_user(self, username: Seq<char>, password_hash: Seq<char>) -> Tables {
        Tables {
            users: self.users.push(
                UserView { id: self.next_user_id as i64, username, password_hash },
            ),
            next_user_id: self.next_user_id + 1,
            ..self
        }
    }

    /// The tables with one more task of `owner`, numbered `next_todo_id`
    /// and not completed.
    pub open spec fn with_task(self, owner: i64, description: Seq<char>) -> Tables {
        Tables {
            todos: self.todos.push(self.new_task(owner, description)),
            next_todo_id: self.next_todo_id + 1,
            ..self
        }
    }

    /// The task that `with_task` adds.
    pub open spec fn new_task(self, owner: i64, description: Seq<char>) -> TodoView {
        TodoView {
            id: self.next_todo_id as i64,
            user_id: owner,
            task: description,
            completed: false,
        }
    }

    /// The tables with the completion flag of task `task_id` set.
    pub open spec fn with_completed(self, task_id: i64, completed: bool) -> Tables {
        Tables { todos: self.todos.map_values(marked(task_id, completed)), ..self }
    }

    /// The tables without the task numbered `task_id` and owned by `owner`.
    pub open spec fn without_task(self, owner: i64, task_id: i64) -> Tables {
        Tables { todos: self.todos.filter(kept_on_delete(owner, task_id)), ..self }
    }

    /// Adds an account. A username that is taken is refused and leaves the
    /// tables as they were; so does the exhaustion of identifiers.
    pub open spec fn create_user(
        self,
        username: Seq<char>,
        password_hash: Seq<char>,
    ) -> (Tables, Result<i64, ApiError>) {
        if self.has_username(username) {
            (self, Err(ApiError::DuplicateUsername))
        } else if self.next_user_id >= i64::MAX {
            (self, Err(ApiError::Internal))
        } else {
            (self.with_user(username, password_hash), Ok(self.next_user_id as i64))
        }
    }

    /// The identifier and the password digest of the account `username`.
    pub open spec fn find_by_username(self, username: Seq<char>) -> Result<
        (i64, Seq<char>),
        ApiError,
    > {
        if self.has_username(username) {
            Ok((self.account(username).id, self.account(username).password_hash))
        } else {
            Err(ApiError::NotFound)
        }
    }

    /// The tasks of `owner`, in the order of the table.
    pub open spec fn list(self, owner: i64) -> Seq<TodoView> {
        self.todos.filter(owned_by(owner))
    }

    /// Adds a task for `owner` and returns it. An owner without an account
    /// is refused, and so is the exhaustion of identifiers; both leave the
    /// tables as they were.
    pub open spec fn create(self, owner: i64, description: Seq<char>) -> (
        Tables,
        Result<TodoView, ApiError>,
    ) {
        if !self.has_user(owner) || self.next_todo_id >= i64::MAX {
            (self, Err(ApiError::Internal))
        } else {
            (self.with_task(owner, description), Ok(self.new_task(owner, description)))
        }
    }

    /// Sets the completion flag of task `task_id` if `owner` owns it. A
    /// task of another user is treated like one that does not exist.
    pub open spec fn update_completed(self, owner: i64, task_id: i64, completed: bool) -> (
        Tables,
        Result<(), ApiError>,
    ) {
        if self.owns(owner, task_id) {
            (self.with_completed(task_id, completed), Ok(()))
        } else {
            (self, Err(ApiError::NotFound))
        }
    }

    /// Removes task `task_id` if `owner` owns it; otherwise nothing changes.
    pub open spec fn delete(self, owner: i64, task_id: i64) -> Tables {
        self.without_task(owner, task_id)
    }
}

/// The account table and the task table.
pub struct Store {
    users: Vec<User>,
    todos: Vec<Todo>,
    next_user_id: i64,
    next_todo_id: i64,
}

impl View for Store {
    type V = Tables;

    closed spec fn view(&self) -> Tables {
        Tables {
            users: user_views(self.users@),
            todos: todo_views(self.todos@),
            next_user_id: self.next_user_id as int,
            next_todo_id: self.next_todo_id as int,
        }
    }
}

impl Store {
    /// A store without accounts and without tasks.
    pub fn new() -> (store: Store)
        ensures
            store@ == Tables::empty(),
            store@.valid(),
    {
        let store = Store {
            users: Vec::new(),
            todos: Vec::new(),
            next_user_id: 1,
            next_todo_id: 1,
        };
        assert(store@.users =~= Seq::empty());
        assert(store@.todos =~= Seq::empty());
        store
    }

    /// Whether the account at position `i` is numbered within range and
    /// shares neither its number nor its name with an earlier row.
    fn account_fits(users: &Vec<User>, i: usize, next_user_id: i64) -> (fits: bool)
        requires
            i < users.len(),
        ensures
            fits == {
                &&& 1 <= users@[i as int].id < next_user_id
                &&& forall|j: int|
                    #![trigger users@[j]]
                    0 <= j < i ==> users@[j].id != users@[i as int].id && users@[j].username@
                        != users@[i as int].username@
            },
    {
        if users[i].id < 1 || users[i].id >= next_user_id {
            return false;
        }
        let mut j: usize = 0;
        while j < i
            invariant
                j <= i < users.len(),
                forall|k: int|
                    #![trigger users@[k]]
                    0 <= k < j ==> users@[k].id != users@[i as int].id && users@[k].username@
                        != users@[i as int].username@,
            decreases i - j,
        {
            if users[j].id == users[i].id || users[j].username == users[i].username {
                return false;
            }
            j += 1;
        }
        true
    }

    /// Whether the task at position `i` is numbered within range, shares
    /// its number with no earlier row and belongs to one of `users`.
    fn task_fits(users: &Vec<User>, todos: &Vec<Todo>, i: usize, next_todo_id: i64) -> (fits: bool)
        requires
            i < todos.len(),
        ensures
            fits == {
                &&& 1 <= todos@[i as int].id < next_todo_id
                &&& forall|j: int|
                    #![trigger todos@[j]]
                    0 <= j < i ==> todos@[j].id != todos@[i as int].id
                &&& exists|u: int|
                    0 <= u < users.len() && (#[trigger] users@[u]).id == todos@[i as int].user_id
            },
    {
        if todos[i].id < 1 || todos[i].id >= next_todo_id {
            return false;
        }
        let mut j: usize = 0;
        while j < i
            invariant
                j <= i < todos.len(),
                forall|k: int| #![trigger todos@[k]] 0 <= k < j ==> todos@[k].id != todos@[i as int].id,
            decreases i - j,
        {
            if todos[j].id == todos[i].id {
                return false;
            }
            j += 1;
        }
        let mut u: usize = 0;
        while u < users.len()
            invariant
                u <= users.len(),
                i < todos.len(),
                1 <= todos@[i as int].id < next_todo_id,
                forall|k: int| #![trigger todos@[k]] 0 <= k < i ==> todos@[k].id != todos@[i as int].id,
                forall|k: int| 0 <= k < u ==> (#[trigger] users@[k]).id != todos@[i as int].user_id,
            decreases users.len() - u,
        {
            if users[u].id == todos[i].user_id {
                return true;
            }
            u += 1;
        }
        false
    }

    /// Takes up the rows of an earlier run, with the identifiers that the
    /// next account and the next task are to get.
    ///
    /// The rows are accepted exactly if they keep the rules of the data
    /// model; a store is never made of rows that break them.
    pub fn restore(users: Vec<User>, todos: Vec<Todo>, next_user_id: i64, next_todo_id: i64) -> (r:
        Option<Store>)
        ensures
            match r {
                Some(store) => store@.valid() && store@ == Tables::of_rows(
                    user_views(users@),
                    todo_views(todos@),
                    next_user_id,
                    next_todo_id,
                ),
                None => !Tables::of_rows(
                    user_views(users@),
                    todo_views(todos@),
                    next_user_id,
                    next_todo_id,
                ).valid(),
            },
    {
        let ghost rows = Tables::of_rows(
            user_views(users@),
            todo_views(todos@),
            next_user_id,
            next_todo_id,
        );
        if next_user_id < 1 || next_todo_id < 1 {
            return None;
        }
        let mut i: usize = 0;
        while i < users.len()
            invariant
                i <= users.len(),
                rows == Tables::of_rows(
                    user_views(users@),
                    todo_views(todos@),
                    next_user_id,
                    next_todo_id,
                ),
                forall|k: int| 0 <= k < i ==> 1 <= (#[trigger] rows.users[k]).id < next_user_id,
                forall|k: int, l: int|
                    #![trigger rows.users[k], rows.users[l]]
                    0 <= k < l < i ==> rows.users[k].id != rows.users[l].id
                        && rows.users[k].username != rows.users[l].username,
            decreases users.len() - i,
        {
            if !Store::account_fits(&users, i, next_user_id) {
                proof {
                    if rows.valid() {
                        assert(rows.users[i as int] == users@[i as int]@);
                        assert(1 <= rows.users[i as int].id < next_user_id);
                        let j = choose|j: int|
                            #![trigger users@[j]]
                            0 <= j < i && !(users@[j].id != users@[i as int].id
                                && users@[j].username@ != users@[i as int].username@);
                        assert(rows.users[j] == users@[j]@);
                        assert(rows.users[j].id != rows.users[i as int].id);
                        assert(rows.users[j].username != rows.users[i as int].username);
                        assert(false);
                    }
                }
                return None;
            }
            proof {
                assert forall|k: int, l: int|
                    #![trigger rows.users[k], rows.users[l]]
                    0 <= k < l < i + 1 implies rows.users[k].id != rows.users[l].id
                    && rows.users[k].username != rows.users[l].username by {
                    if l == i {
                        assert(users@[k].id != users@[i as int].id);
                    }
                }
            }
            i += 1;
        }
        let mut i: usize = 0;
        while i < todos.len()
            invariant
                i <= todos.len(),
                rows == Tables::of_rows(
                    user_views(users@),
                    todo_views(todos@),
                    next_user_id,
                    next_todo_id,
                ),
                forall|k: int| 0 <= k < i ==> 1 <= (#[trigger] rows.todos[k]).id < next_todo_id,
                forall|k: int, l: int|
                    #![trigger rows.todos[k], rows.todos[l]]
                    0 <= k < l < i ==> rows.todos[k].id != rows.todos[l].id,
                forall|k: int| 0 <= k < i ==> rows.has_user((#[trigger] rows.todos[k]).user_id),
            decreases todos.len() - i,
        {
            if !Store::task_fits(&users, &todos, i, next_todo_id) {
                proof {
                    if rows.valid() {
                        assert(rows.todos[i as int] == todos@[i as int]@);
                        assert(1 <= rows.todos[i as int].id < next_todo_id);
                        assert(rows.has_user(rows.todos[i as int].user_id));
                        let u = choose|u: int|
                            0 <= u < rows.users.len() && (#[trigger] rows.users[u]).id
                                == rows.todos[i as int].user_id;
                        assert(rows.users[u] == users@[u]@);
                        assert(users@[u].id == todos@[i as int].user_id);
                        let j = choose|j: int|
                            #![trigger todos@[j]]
                            0 <= j < i && todos@[j].id == todos@[i as int].id;
                        assert(rows.todos[j] == todos@[j]@);
                        assert(rows.todos[j].id != rows.todos[i as int].id);
                        assert(false);
                    }
                }
                return None;
            }
            proof {
                let u = choose|u: int|
                    0 <= u < users.len() && (#[trigger] users@[u]).id == todos@[i as int].user_id;
                assert(rows.users[u].id == rows.todos[i as int].user_id);
                assert forall|k: int, l: int|
                    #![trigger rows.todos[k], rows.todos[l]]
                    0 <= k < l < i + 1 implies rows.todos[k].id != rows.todos[l].id by {
                    if l == i {
                        assert(todos@[k].id != todos@[i as int].id);
                    }
                }
            }
            i += 1;
        }
        Some(Store { users, todos, next_user_id, next_todo_id })
    }

    /// The position of the account `username`, if there is one.
    fn position_of_username(&self, username: &String) -> (found: Option<usize>)
        ensures
            match found {
                Some(i) => i < self@.users.len() && self@.users[i as int].username == username@,
                None => !self@.has_username(username@),
            },
    {
        let mut i: usize = 0;
        while i < self.users.len()
            invariant
                i <= self.users.len(),
                self@.users.len() == self.users.len(),
                forall|k: int| 0 <= k < i ==> (#[trigger] self@.users[k]).username != username@,
            decreases self.users.len() - i,
        {
            if self.users[i].username == *username {
                return Some(i);
            }
            i += 1;
        }
        None
    }

    /// Adds an account and returns its identifier.
    ///
    /// Fails with `DuplicateUsername` if the name is taken. The check and
    /// the insertion are one step: nothing can come between them.
    pub fn create_user(&mut self, username: String, password_hash: String) -> (r: Result<
        i64,
        ApiError,
    >)
        requires
            old(self)@.valid(),
        ensures
            final(self)@.valid(),
            (final(self)@, r) == old(self)@.create_user(username@, password_hash@),
    {
        if self.position_of_username(&username).is_some() {
            return Err(ApiError::DuplicateUsername);
        }
        if self.next_user_id >= i64::MAX {
            return Err(ApiError::Internal);
        }
        let id = self.next_user_id;
        let ghost before = self@;
        let ghost name = username@;
        let ghost hash = password_hash@;
        self.users.push(User { id, username, password_hash });
        self.next_user_id = id + 1;
        proof {
            assert(self@.users =~= before.with_user(name, hash).users);
            assert(self@ == before.with_user(name, hash));
            lemma_with_user_valid(before, name, hash);
        }
        Ok(id)
    }

    /// Looks an account up by its name and returns its identifier and its
    /// password digest; `NotFound` if nobody goes by that name.
    pub fn find_by_username(&self, username: &str) -> (r: Result<(i64, String), ApiError>)
        requires
            self@.valid(),
        ensures
            match r {
                Ok((id, digest)) => self@.find_by_username(username@) == Ok::<
                    (i64, Seq<char>),
                    ApiError,
                >((id, digest@)),
                Err(e) => self@.find_by_username(username@) == Err::<(i64, Seq<char>), ApiError>(e),
            },
    {
        let name = username.to_owned();
        match self.position_of_username(&name) {
            Some(i) => {
                let user = &self.users[i];
                proof {
                    lemma_account_is_unique(self@, username@, i as int);
                }
                Ok((user.id, user.password_hash.clone()))
            },
            None => Err(ApiError::NotFound),
        }
    }

    /// Whether an account numbered `id` exists.
    fn has_account(&self, id: i64) -> (found: bool)
        ensures
            found == self@.has_user(id),
    {
        let mut i: usize = 0;
        while i < self.users.len()
            invariant
                i <= self.users.len(),
                self@.users.len() == self.users.len(),
                forall|k: int| 0 <= k < i ==> (#[trigger] self@.users[k]).id != id,
            decreases self.users.len() - i,
        {
            if self.users[i].id == id {
                assert(self@.users[i as int].id == id);
                return true;
            }
            i += 1;
        }
        false
    }

    /// The position of the task numbered `task_id` and owned by `owner`,
    /// if there is one.
    fn position_of_task(&self, owner: i64, task_id: i64) -> (found: Option<usize>)
        ensures
            match found {
                Some(i) => i < self@.todos.len() && self@.todos[i as int].id == task_id
                    && self@.todos[i as int].user_id == owner,
                None => !self@.owns(owner, task_id),
            },
    {
        let mut i: usize = 0;
        while i < self.todos.len()
            invariant
                i <= self.todos.len(),
                self@.todos.len() == self.todos.len(),
                forall|k: int|
                    0 <= k < i ==> !((#[trigger] self@.todos[k]).id == task_id
                        && self@.todos[k].user_id == owner),
            decreases self.todos.len() - i,
        {
            if self.todos[i].id == task_id && self.todos[i].user_id == owner {
                return Some(i);
            }
            i += 1;
        }
        None
    }

    /// All tasks of `owner`, in the order of the table.
    pub fn list(&self, owner: i64) -> (tasks: Vec<Todo>)
        ensures
            todo_views(tasks@) == self@.list(owner),
    {
        let mut tasks: Vec<Todo> = Vec::new();
        let mut i: usize = 0;
        assert(self@.todos.take(0) =~= Seq::empty());
        assert(todo_views(tasks@) =~= Seq::empty());
        while i < self.todos.len()
            invariant
                i <= self.todos.len(),
                self@.todos.len() == self.todos.len(),
                todo_views(tasks@) == self@.todos.take(i as int).filter(owned_by(owner)),
            decreases self.todos.len() - i,
        {
            let ghost seen = self@.todos.take(i as int);
            let ghost row = self@.todos[i as int];
            proof {
                assert(self@.todos.take(i + 1) =~= seen.push(row));
                seen.lemma_filter_push(row, owned_by(owner));
            }
            if self.todos[i].user_id == owner {
                let ghost collected = todo_views(tasks@);
                tasks.push(self.todos[i].clone());
                assert(todo_views(tasks@) =~= collected.push(row));
            }
            i += 1;
        }
        assert(self@.todos.take(i as int) =~= self@.todos);
        tasks
    }

    /// Adds a task for `owner`, not completed, and returns the whole
    /// record with the identifier it was given.
    ///
    /// Fails with `Internal`, and changes nothing, if `owner` has no
    /// account or no identifier is left.
    pub fn create(&mut self, owner: i64, description: String) -> (r: Result<Todo, ApiError>)
        requires
            old(self)@.valid(),
        ensures
            final(self)@.valid(),
            final(self)@ == old(self)@.create(owner, description@).0,
            match r {
                Ok(task) => old(self)@.create(owner, description@).1 == Ok::<TodoView, ApiError>(
                    task@,
                ),
                Err(e) => old(self)@.create(owner, description@).1 == Err::<TodoView, ApiError>(e),
            },
    {
        if !self.has_account(owner) || self.next_todo_id >= i64::MAX {
            return Err(ApiError::Internal);
        }
        let id = self.next_todo_id;
        let ghost before = self@;
        let ghost text = description@;
        let task = Todo { id, user_id: owner, task: description.clone(), completed: false };
        self.todos.push(Todo { id, user_id: owner, task: description, completed: false });
        self.next_todo_id = id + 1;
        proof {
            assert(self@.todos =~= before.with_task(owner, text).todos);
            assert(self@ == before.with_task(owner, text));
            lemma_with_task_valid(before, owner, text);
        }
        Ok(task)
    }

    /// Sets the completion flag of task `task_id`.
    ///
    /// Fails with `NotFound`, and changes nothing, unless a task with that
    /// identifier exists and belongs to `owner`: a task of another user
    /// cannot be told from one that does not exist.
    pub fn update_completed(&mut self, owner: i64, task_id: i64, completed: bool) -> (r: Result<
        (),
        ApiError,
    >)
        requires
            old(self)@.valid(),
        ensures
            final(self)@.valid(),
            (final(self)@, r) == old(self)@.update_completed(owner, task_id, completed),
    {
        match self.position_of_task(owner, task_id) {
            Some(i) => {
                let ghost before = self@;
                self.todos[i].completed = completed;
                proof {
                    lemma_marked_touches_one(before, i as int, completed);
                    assert(self@.todos =~= before.with_completed(task_id, completed).todos);
                    assert(self@ == before.with_completed(task_id, completed));
                    lemma_with_completed_valid(before, task_id, completed);
                }
                Ok(())
            },
            None => Err(ApiError::NotFound),
        }
    }

    /// Removes task `task_id` if it belongs to `owner`. Where no row
    /// matches both, nothing is removed and the call still succeeds.
    pub fn delete(&mut self, owner: i64, task_id: i64)
        requires
            old(self)@.valid(),
        ensures
            final(self)@.valid(),
            final(self)@ == old(self)@.delete(owner, task_id),
    {
        let ghost before = self@;
        match self.position_of_task(owner, task_id) {
            Some(i) => {
                self.todos.remove(i);
                proof {
                    lemma_delete_removes_one(before, owner, task_id, i as int);
                    assert(self@.todos =~= before.todos.remove(i as int));
                    assert(self@ == before.delete(owner, task_id));
                    lemma_without_task_valid(before, owner, task_id);
                }
            },
            None => {
                proof {
                    lemma_delete_of_unowned(before, owner, task_id);
                }
            },
        }
    }
}

/// In valid tables the account that goes by a name is the only row with
/// that name.
pub proof fn lemma_account_is_unique(tables: Tables, name: Seq<char>, i: int)
    requires
        tables.valid(),
        0 <= i < tables.users.len(),
        tables.users[i].username == name,
    ensures
        tables.has_username(name),
        tables.account(name) == tables.users[i],
{
    let k = choose|k: int|
        0 <= k < tables.users.len() && (#[trigger] tables.users[k]).username == name;
    if k < i {
        assert(tables.users[k].username != tables.users[i].username);
    } else if i < k {
        assert(tables.users[i].username != tables.users[k].username);
    }
}

/// Adding an account under a free name keeps the tables valid.
pub proof fn lemma_with_user_valid(tables: Tables, username: Seq<char>, password_hash: Seq<char>)
    requires
        tables.valid(),
        !tables.has_username(username),
        tables.next_user_id < i64::MAX,
    ensures
        tables.with_user(username, password_hash).valid(),
{
    let after = tables.with_user(username, password_hash);
    assert forall|i: int| 0 <= i < after.todos.len() implies after.has_user(
        (#[trigger] after.todos[i]).user_id,
    ) by {
        assert(tables.has_user(tables.todos[i].user_id));
        let k = choose|k: int|
            0 <= k < tables.users.len() && (#[trigger] tables.users[k]).id
                == tables.todos[i].user_id;
        assert(after.users[k] == tables.users[k]);
    }
    assert forall|i: int, j: int|
        #![trigger after.users[i], after.users[j]]
        0 <= i < j < after.users.len() implies after.users[i].id != after.users[j].id
        && after.users[i].username != after.users[j].username by {
        assert(after.users[i] == tables.users[i]);
        if j < tables.users.len() {
            assert(after.users[j] == tables.users[j]);
        }
    }
}

/// Whether an account exists depends on the account table alone.
proof fn lemma_same_accounts(before: Tables, after: Tables, id: i64)
    requires
        before.users == after.users,
        before.has_user(id),
    ensures
        after.has_user(id),
{
    let k = choose|k: int| 0 <= k < before.users.len() && (#[trigger] before.users[k]).id == id;
    assert(after.users[k].id == id);
}

/// Adding a task for an account that exists keeps the tables valid.
pub proof fn lemma_with_task_valid(tables: Tables, owner: i64, description: Seq<char>)
    requires
        tables.valid(),
        tables.has_user(owner),
        tables.next_todo_id < i64::MAX,
    ensures
        tables.with_task(owner, description).valid(),
{
    let after = tables.with_task(owner, description);
    assert forall|i: int| 0 <= i < after.todos.len() implies 1 <= (#[trigger] after.todos[i]).id
        < after.next_todo_id && after.has_user(after.todos[i].user_id) by {
        if i < tables.todos.len() {
            assert(after.todos[i] == tables.todos[i]);
        }
        lemma_same_accounts(tables, after, after.todos[i].user_id);
    }
    assert forall|i: int, j: int|
        #![trigger after.todos[i], after.todos[j]]
        0 <= i < j < after.todos.len() implies after.todos[i].id != after.todos[j].id by {
        assert(after.todos[i] == tables.todos[i]);
        if j < tables.todos.len() {
            assert(after.todos[j] == tables.todos[j]);
        }
    }
}

/// In valid tables, marking the task at position `i` changes that row and
/// no other.
pub proof fn lemma_marked_touches_one(tables: Tables, i: int, completed: bool)
    requires
        tables.valid(),
        0 <= i < tables.todos.len(),
    ensures
        tables.with_completed(tables.todos[i].id, completed).todos == tables.todos.update(
            i,
            TodoView { completed, ..tables.todos[i] },
        ),
{
    let task_id = tables.todos[i].id;
    let after = tables.with_completed(task_id, completed).todos;
    let expected = tables.todos.update(i, TodoView { completed, ..tables.todos[i] });
    assert forall|k: int| 0 <= k < after.len() implies after[k] == expected[k] by {
        if k < i {
            assert(tables.todos[k].id != tables.todos[i].id);
        } else if i < k {
            assert(tables.todos[i].id != tables.todos[k].id);
        }
    }
    assert(after =~= expected);
}

/// Setting a completion flag keeps the tables valid.
pub proof fn lemma_with_completed_valid(tables: Tables, task_id: i64, completed: bool)
    requires
        tables.valid(),
    ensures
        tables.with_completed(task_id, completed).valid(),
{
    let after = tables.with_completed(task_id, completed);
    assert forall|i: int| 0 <= i < after.todos.len() implies 1 <= (#[trigger] after.todos[i]).id
        < after.next_todo_id && after.has_user(after.todos[i].user_id) by {
        assert(after.todos[i].id == tables.todos[i].id);
        assert(after.todos[i].user_id == tables.todos[i].user_id);
        lemma_same_accounts(tables, after, after.todos[i].user_id);
    }
    assert forall|i: int, j: int|
        #![trigger after.todos[i], after.todos[j]]
        0 <= i < j < after.todos.len() implies after.todos[i].id != after.todos[j].id by {
        assert(after.todos[i].id == tables.todos[i].id);
        assert(after.todos[j].id == tables.todos[j].id);
    }
}

/// A filter that every row passes changes nothing.
proof fn lemma_filter_keeps_all<A>(rows: Seq<A>, keep: spec_fn(A) -> bool)
    requires
        forall|k: int| 0 <= k < rows.len() ==> keep(#[trigger] rows[k]),
    ensures
        rows.filter(keep) == rows,
    decreases rows.len(),
{
    reveal(Seq::filter);
    if rows.len() > 0 {
        let front = rows.drop_last();
        assert forall|k: int| 0 <= k < front.len() implies keep(#[trigger] front[k]) by {
            assert(front[k] == rows[k]);
        }
        lemma_filter_keeps_all(front, keep);
        assert(keep(rows[rows.len() - 1]));
        assert(front.push(rows.last()) =~= rows);
    }
}

/// A filter that every row passes but the one at position `i` removes
/// exactly that row.
proof fn lemma_filter_drops_one<A>(rows: Seq<A>, keep: spec_fn(A) -> bool, i: int)
    requires
        0 <= i < rows.len(),
        !keep(rows[i]),
        forall|k: int| 0 <= k < rows.len() && k != i ==> keep(#[trigger] rows[k]),
    ensures
        rows.filter(keep) == rows.remove(i),
    decreases rows.len(),
{
    reveal(Seq::filter);
    let front = rows.drop_last();
    if i == rows.len() - 1 {
        assert forall|k: int| 0 <= k < front.len() implies keep(#[trigger] front[k]) by {
            assert(front[k] == rows[k]);
        }
        lemma_filter_keeps_all(front, keep);
        assert(rows.remove(i) =~= front);
    } else {
        assert(front[i] == rows[i]);
        assert forall|k: int| 0 <= k < front.len() && k != i implies keep(
            #[trigger] front[k],
        ) by {
            assert(front[k] == rows[k]);
        }
        lemma_filter_drops_one(front, keep, i);
        assert(keep(rows[rows.len() - 1]));
        assert(front.remove(i).push(rows.last()) =~= rows.remove(i));
    }
}

/// In valid tables, deleting a task that its owner holds at position `i`
/// removes that row and no other.
pub proof fn lemma_delete_removes_one(tables: Tables, owner: i64, task_id: i64, i: int)
    requires
        tables.valid(),
        0 <= i < tables.todos.len(),
        tables.todos[i].id == task_id,
        tables.todos[i].user_id == owner,
    ensures
        tables.delete(owner, task_id).todos == tables.todos.remove(i),
{
    let keep = kept_on_delete(owner, task_id);
    assert forall|k: int| 0 <= k < tables.todos.len() && k != i implies keep(
        #[trigger] tables.todos[k],
    ) by {
        if k < i {
            assert(tables.todos[k].id != tables.todos[i].id);
        } else {
            assert(tables.todos[i].id != tables.todos[k].id);
        }
    }
    lemma_filter_drops_one(tables.todos, keep, i);
}

/// Deleting a task that the caller does not own, or that does not exist,
/// changes nothing.
pub proof fn lemma_delete_of_unowned(tables: Tables, owner: i64, task_id: i64)
    requires
        !tables.owns(owner, task_id),
    ensures
        tables.delete(owner, task_id) == tables,
{
    let keep = kept_on_delete(owner, task_id);
    assert forall|k: int| 0 <= k < tables.todos.len() implies keep(#[trigger] tables.todos[k]) by {
        if !keep(tables.todos[k]) {
            assert(tables.todos[k].id == task_id && tables.todos[k].user_id == owner);
            assert(tables.owns(owner, task_id));
        }
    }
    lemma_filter_keeps_all(tables.todos, keep);
}

/// Deleting keeps the tables valid.
pub proof fn lemma_without_task_valid(tables: Tables, owner: i64, task_id: i64)
    requires
        tables.valid(),
    ensures
        tables.without_task(owner, task_id).valid(),
{
    if tables.owns(owner, task_id) {
        let i = choose|i: int|
            0 <= i < tables.todos.len() && (#[trigger] tables.todos[i]).id == task_id
                && tables.todos[i].user_id == owner;
        lemma_delete_removes_one(tables, owner, task_id, i);
        let after = tables.without_task(owner, task_id);
        assert forall|k: int| 0 <= k < after.todos.len() implies 1 <= (
        #[trigger] after.todos[k]).id < after.next_todo_id && after.has_user(
            after.todos[k].user_id,
        ) by {
            if k < i {
                assert(after.todos[k] == tables.todos[k]);
            } else {
                assert(after.todos[k] == tables.todos[k + 1]);
            }
            lemma_same_accounts(tables, after, after.todos[k].user_id);
        }
        assert forall|k: int, l: int|
            #![trigger after.todos[k], after.todos[l]]
            0 <= k < l < after.todos.len() implies after.todos[k].id != after.todos[l].id by {
            let k0 = if k < i { k } else { k + 1 };
            let l0 = if l < i { l } else { l + 1 };
            assert(after.todos[k] == tables.todos[k0]);
            assert(after.todos[l] == tables.todos[l0]);
            assert(tables.todos[k0].id != tables.todos[l0].id);
        }
    } else {
        lemma_delete_of_unowned(tables, owner, task_id);
    }
}

/// A filter that no row passes leaves nothing.
proof fn lemma_filter_keeps_none<A>(rows: Seq<A>, keep: spec_fn(A) -> bool)
    requires
        forall|k: int| 0 <= k < rows.len() ==> !keep(#[trigger] rows[k]),
    ensures
        rows.filter(keep) == Seq::<A>::empty(),
    decreases rows.len(),
{
    reveal(Seq::filter);
    if rows.len() > 0 {
        let front = rows.drop_last();
        assert forall|k: int| 0 <= k < front.len() implies !keep(#[trigger] front[k]) by {
            assert(front[k] == rows[k]);
        }
        lemma_filter_keeps_none(front, keep);
        assert(!keep(rows[rows.len() - 1]));
    }
}

/// An account without tasks lists nothing.
pub proof fn lemma_list_without_tasks(tables: Tables, owner: i64)
    requires
        forall|k: int| 0 <= k < tables.todos.len() ==> (#[trigger] tables.todos[k]).user_id != owner,
    ensures
        tables.list(owner) == Seq::<TodoView>::empty(),
{
    lemma_filter_keeps_none(tables.todos, owned_by(owner));
}

/// Ownership is enforced on every path: in valid tables, a task that
/// belongs to one user can be neither seen nor changed by another. For the
/// other user the update fails with `NotFound`, exactly as for a task that
/// does not exist, the listing does not hold the task, and a delete
/// removes nothing.
pub proof fn lemma_tasks_are_private(tables: Tables, i: int, other: i64, completed: bool)
    requires
        tables.valid(),
        0 <= i < tables.todos.len(),
        tables.todos[i].user_id != other,
    ensures
        tables.update_completed(other, tables.todos[i].id, completed) == (
            tables,
            Err::<(), ApiError>(ApiError::NotFound),
        ),
        !tables.list(other).contains(tables.todos[i]),
        tables.delete(other, tables.todos[i].id) == tables,
{
    let task = tables.todos[i];
    assert(!tables.owns(other, task.id)) by {
        if tables.owns(other, task.id) {
            let k = choose|k: int|
                0 <= k < tables.todos.len() && (#[trigger] tables.todos[k]).id == task.id
                    && tables.todos[k].user_id == other;
            if k < i {
                assert(tables.todos[k].id != tables.todos[i].id);
            } else if i < k {
                assert(tables.todos[i].id != tables.todos[k].id);
            }
        }
    }
    lemma_delete_of_unowned(tables, other, task.id);
    if tables.list(other).contains(task) {
        tables.todos.lemma_filter_contains_rev(owned_by(other), task);
    }
}

/// The same for a task that was just created: what user `owner` creates,
/// another user can neither see nor change.
pub proof fn lemma_created_task_is_private(
    tables: Tables,
    owner: i64,
    description: Seq<char>,
    other: i64,
    completed: bool,
)
    requires
        tables.valid(),
        other != owner,
        tables.create(owner, description).1 is Ok,
    ensures
        ({
            let (after, created) = tables.create(owner, description);
            let task = created->Ok_0;
            &&& after.list(owner).contains(task)
            &&& after.update_completed(other, task.id, completed) == (
                after,
                Err::<(), ApiError>(ApiError::NotFound),
            )
            &&& !after.list(other).contains(task)
            &&& after.delete(other, task.id) == after
        }),
{
    let (after, created) = tables.create(owner, description);
    let task = created->Ok_0;
    let last = tables.todos.len() as int;
    lemma_with_task_valid(tables, owner, description);
    assert(after.todos[last] == task);
    lemma_tasks_are_private(after, last, other, completed);
    tables.todos.lemma_filter_push(task, owned_by(owner));
    assert(after.list(owner).last() == task);
}

/// A listing holds the caller's tasks and nothing else: a task is listed
/// for `owner` exactly if it is in the table and belongs to `owner`.
pub proof fn lemma_list_holds_own_tasks_only(tables: Tables, owner: i64, task: TodoView)
    ensures
        tables.list(owner).contains(task) <==> tables.todos.contains(task) && task.user_id
            == owner,
{
    let own = owned_by(owner);
    if tables.list(owner).contains(task) {
        tables.todos.lemma_filter_contains_rev(own, task);
    }
    if tables.todos.contains(task) && task.user_id == owner {
        let i = choose|i: int| 0 <= i < tables.todos.len() && tables.todos[i] == task;
        tables.todos.lemma_filter_contains(own, i);
    }
}

/// Every operation keeps the rules of the data model, whether it goes
/// through or is refused.
pub proof fn lemma_operations_keep_the_rules(
    tables: Tables,
    username: Seq<char>,
    password_hash: Seq<char>,
    owner: i64,
    description: Seq<char>,
    task_id: i64,
    completed: bool,
)
    requires
        tables.valid(),
    ensures
        tables.create_user(username, password_hash).0.valid(),
        tables.create(owner, description).0.valid(),
        tables.update_completed(owner, task_id, completed).0.valid(),
        tables.delete(owner, task_id).valid(),
{
    if !tables.has_username(username) && tables.next_user_id < i64::MAX {
        lemma_with_user_valid(tables, username, password_hash);
    }
    if tables.has_user(owner) && tables.next_todo_id < i64::MAX {
        lemma_with_task_valid(tables, owner, description);
    }
    lemma_with_completed_valid(tables, task_id, completed);
    lemma_without_task_valid(tables, owner, task_id);
}

/// No operation changes or removes an account.
pub proof fn lemma_operations_keep_accounts(
    tables: Tables,
    username: Seq<char>,
    password_hash: Seq<char>,
    owner: i64,
    description: Seq<char>,
    task_id: i64,
    completed: bool,
)
    ensures
        tables.kept_in(tables),
        tables.kept_in(tables.create_user(username, password_hash).0),
        tables.kept_in(tables.create(owner, description).0),
        tables.kept_in(tables.update_completed(owner, task_id, completed).0),
        tables.kept_in(tables.delete(owner, task_id)),
{
}

/// Accounts that were kept twice were kept.
pub proof fn lemma_kept_in_is_transitive(first: Tables, second: Tables, third: Tables)
    requires
        first.kept_in(second),
        second.kept_in(third),
    ensures
        first.kept_in(third),
{
    assert forall|i: int| 0 <= i < first.users.len() implies (#[trigger] third.users[i])
        == first.users[i] by {
        assert(second.users[i] == first.users[i]);
    }
}

/// An account is found in every later state of the tables as it was found
/// before, under the same identifier and with the same digest.
pub proof fn lemma_account_is_found_later(earlier: Tables, later: Tables, username: Seq<char>)
    requires
        later.valid(),
        earlier.kept_in(later),
        earlier.has_username(username),
    ensures
        later.find_by_username(username) == earlier.find_by_username(username),
{
    let i = choose|i: int|
        0 <= i < earlier.users.len() && (#[trigger] earlier.users[i]).username == username;
    assert(later.users[i] == earlier.users[i]);
    lemma_account_is_unique(later, username, i);
}

} // verus!
