//! The handler logic behind the HTTP routes: field validation, the
//! repository call, and the mapping of every failure to its status code.
//! Parsing request bodies and writing responses stays with the server.

use crate::repositories::{
    merged, text_valid, validated_text, validated_update, CreateTodo, RepositoryError, Todo,
    TodoRepository, UpdateTodo, ValidationError,
};
use vstd::prelude::*;

verus! {

/// What a handler reports when a request fails.
#[derive(Debug)]
pub enum HandlerError {
    /// The payload failed field validation.
    Validation(ValidationError),
    /// The id is absent from the store.
    NotFound(i32),
    /// Any other backend failure.
    Unexpected(String),
}

/// The HTTP status that each failure is surfaced as: 400 for a rejected
/// payload, 404 for a missing id, 500 for any other backend failure.
pub open spec fn spec_error_status(e: HandlerError) -> u16 {
    match e {
        HandlerError::Validation(_) => 400,
        HandlerError::NotFound(_) => 404,
        HandlerError::Unexpected(_) => 500,
    }
}

/// Maps a failed request to its HTTP status code.
pub fn error_status(e: &HandlerError) -> (s: u16)
    ensures
        s == spec_error_status(*e),
{
    match e {
        HandlerError::Validation(_) => 400,
        HandlerError::NotFound(_) => 404,
        HandlerError::Unexpected(_) => 500,
    }
}

/// `GET /`: the static greeting.
pub fn root() -> (r: &'static str)
    ensures
        r@ == "Hello world"@,
{
    "Hello world"
}

/// `POST /todos`: validates the payload, then stores a new record. A
/// rejected payload leaves the store unchanged.
pub fn create_todo<T: TodoRepository>(repo: &mut T, payload: CreateTodo) -> (r: Result<
    Todo,
    HandlerError,
>)
    requires
        old(repo).wf(),
        old(repo).todos().len() < 0x7fff_ffff,
    ensures
        final(repo).wf(),
        match r {
            Ok(t) => {
                &&& text_valid(payload@)
                &&& t.id == old(repo).next_id()
                &&& t@.text == payload@
                &&& !t.completed
                &&& final(repo).todos() == old(repo).todos().insert(t.id, t@)
            },
            Err(HandlerError::Validation(e)) => {
                &&& Err::<(), ValidationError>(e) == validated_text(payload@)
                &&& final(repo).todos() == old(repo).todos()
            },
            Err(HandlerError::NotFound(_)) => false,
            Err(HandlerError::Unexpected(_)) => {
                &&& old(repo).fallible()
                &&& final(repo).todos() == old(repo).todos()
            },
        },
        !old(repo).fallible() ==> (r is Ok <==> text_valid(payload@)),
{
    match payload.validate() {
        Err(e) => Err(HandlerError::Validation(e)),
        Ok(_) => match repo.create(payload) {
            Ok(t) => Ok(t),
            Err(RepositoryError::NotFound(i)) => Err(HandlerError::NotFound(i)),
            Err(RepositoryError::Unexpected(m)) => Err(HandlerError::Unexpected(m)),
        },
    }
}

/// `GET /todos/:id`: returns the record stored under `id`.
pub fn find_todo<T: TodoRepository>(repo: &T, id: i32) -> (r: Result<Todo, HandlerError>)
    requires
        repo.wf(),
    ensures
        match r {
            Ok(t) => repo.todos().contains_key(id) && t@ == repo.todos()[id],
            Err(HandlerError::NotFound(i)) => i == id && !repo.todos().contains_key(id),
            Err(HandlerError::Unexpected(_)) => repo.fallible(),
            Err(HandlerError::Validation(_)) => false,
        },
        !repo.fallible() ==> (r is Ok <==> repo.todos().contains_key(id)),
{
    match repo.find(id) {
        Ok(t) => Ok(t),
        Err(RepositoryError::NotFound(i)) => Err(HandlerError::NotFound(i)),
        Err(RepositoryError::Unexpected(m)) => Err(HandlerError::Unexpected(m)),
    }
}

/// `GET /todos`: returns every stored record, each id exactly once.
pub fn find_all<T: TodoRepository>(repo: &T) -> (r: Result<Vec<Todo>, HandlerError>)
    requires
        repo.wf(),
    ensures
        match r {
            Ok(v) => {
                &&& v@.len() == repo.todos().len()
                &&& forall|i: int|
                    #![trigger v@[i]]
                    0 <= i < v@.len() ==> repo.todos().contains_key(v@[i].id) && v@[i]@
                        == repo.todos()[v@[i].id]
                &&& forall|i: int, j: int| 0 <= i < j < v@.len() ==> v@[i].id != v@[j].id
            },
            Err(HandlerError::Unexpected(_)) => repo.fallible(),
            Err(_) => false,
        },
        !repo.fallible() ==> r is Ok,
{
    match repo.all() {
        Ok(v) => Ok(v),
        Err(RepositoryError::NotFound(i)) => Err(HandlerError::NotFound(i)),
        Err(RepositoryError::Unexpected(m)) => Err(HandlerError::Unexpected(m)),
    }
}

/// `PATCH /todos/:id`: validates a present text field, then merges the
/// payload over the stored record. A failure leaves the store unchanged.
pub fn update_todo<T: TodoRepository>(repo: &mut T, id: i32, payload: UpdateTodo) -> (r: Result<
    Todo,
    HandlerError,
>)
    requires
        old(repo).wf(),
    ensures
        final(repo).wf(),
        match r {
            Ok(t) => {
                &&& validated_update(payload@) is Ok
                &&& old(repo).todos().contains_key(id)
                &&& t.id == id
                &&& t@ == merged(old(repo).todos()[id], payload@)
                &&& final(repo).todos() == old(repo).todos().insert(id, t@)
            },
            Err(HandlerError::Validation(e)) => {
                &&& Err::<(), ValidationError>(e) == validated_update(payload@)
                &&& final(repo).todos() == old(repo).todos()
            },
            Err(HandlerError::NotFound(i)) => {
                &&& i == id
                &&& validated_update(payload@) is Ok
                &&& !old(repo).todos().contains_key(id)
                &&& final(repo).todos() == old(repo).todos()
            },
            Err(HandlerError::Unexpected(_)) => {
                &&& old(repo).fallible()
                &&& final(repo).todos() == old(repo).todos()
            },
        },
        !old(repo).fallible() ==> (r is Ok <==> (validated_update(payload@) is Ok && old(
            repo,
        ).todos().contains_key(id))),
{
    match payload.validate() {
        Err(e) => Err(HandlerError::Validation(e)),
        Ok(_) => match repo.update(id, payload) {
            Ok(t) => Ok(t),
            Err(RepositoryError::NotFound(i)) => Err(HandlerError::NotFound(i)),
            Err(RepositoryError::Unexpected(m)) => Err(HandlerError::Unexpected(m)),
        },
    }
}

/// `DELETE /todos/:id`: removes the record stored under `id`. A failure
/// leaves the store unchanged.
pub fn delete_todo<T: TodoRepository>(repo: &mut T, id: i32) -> (r: Result<(), HandlerError>)
    requires
        old(repo).wf(),
    ensures
        final(repo).wf(),
        match r {
            Ok(_) => {
                &&& old(repo).todos().contains_key(id)
                &&& final(repo).todos() == old(repo).todos().remove(id)
            },
            Err(HandlerError::NotFound(i)) => {
                &&& i == id
                &&& !old(repo).todos().contains_key(id)
                &&& final(repo).todos() == old(repo).todos()
            },
            Err(HandlerError::Unexpected(_)) => {
                &&& old(repo).fallible()
                &&& final(repo).todos() == old(repo).todos()
            },
            Err(HandlerError::Validation(_)) => false,
        },
        !old(repo).fallible() ==> (r is Ok <==> old(repo).todos().contains_key(id)),
{
    match repo.delete(id) {
        Ok(_) => Ok(()),
        Err(RepositoryError::NotFound(i)) => Err(HandlerError::NotFound(i)),
        Err(RepositoryError::Unexpected(m)) => Err(HandlerError::Unexpected(m)),
    }
}

} // verus!

