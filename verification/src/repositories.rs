//! The entity model and the repository abstraction over storage backends,
//! with a verified in-memory backend.

use std::collections::HashMap;
use vstd::prelude::*;
use vstd::string::StrSliceExecFns;

verus! {

broadcast use vstd::std_specs::hash::group_hash_axioms;

/// Mathematical model of a stored todo record.
pub ghost struct TodoView {
    pub id: i32,
    pub text: Seq<char>,
    pub completed: bool,
}

/// A todo record: a unique id assigned by the backend, the text, and a
/// completion flag.
#[derive(Debug)]
pub struct Todo {
    pub id: i32,
    pub text: String,
    pub completed: bool,
}

impl View for Todo {
    type V = TodoView;

    open spec fn view(&self) -> TodoView {
        TodoView { id: self.id, text: self.text@, completed: self.completed }
    }
}

impl Clone for Todo {
    fn clone(&self) -> (r: Self)
        ensures
            r == *self,
    {
        Todo { id: self.id, text: self.text.clone(), completed: self.completed }
    }
}

impl Todo {
    /// A fresh record starts out not completed.
    pub fn new(id: i32, text: String) -> (r: Self)
        ensures
            r.id == id,
            r.text == text,
            !r.completed,
    {
        Todo { id, text, completed: false }
    }
}

impl PartialEq for Todo {
    fn eq(&self, other: &Self) -> (r: bool) {
        self.id == other.id && self.completed == other.completed && self.text == other.text
    }
}

impl vstd::std_specs::cmp::PartialEqSpecImpl for Todo {
    open spec fn obeys_eq_spec() -> bool {
        true
    }

    open spec fn eq_spec(&self, other: &Self) -> bool {
        self@ == other@
    }
}

/// A rejected input field, with the constraint that failed.
#[derive(Debug, Clone, Copy, PartialEq, Eq, Structural)]
pub enum ValidationError {
    /// The text was empty.
    Empty,
    /// The text ran over the allowed length.
    TooLong,
}

impl ValidationError {
    /// The human-readable message that the service reports for this failure.
    pub fn message(&self) -> (r: &'static str)
        ensures
            *self == ValidationError::Empty ==> r@ == "Can not be empty"@,
            *self == ValidationError::TooLong ==> r@ == "Over text length"@,
    {
        match self {
            ValidationError::Empty => "Can not be empty",
            ValidationError::TooLong => "Over text length",
        }
    }
}

/// The todo text must hold between 1 and 100 characters.
pub open spec fn text_valid(s: Seq<char>) -> bool {
    1 <= s.len() <= 100
}

/// What validating a text field yields: the empty check comes first, then the
/// length cap.
pub open spec fn validated_text(s: Seq<char>) -> Result<(), ValidationError> {
    if s.len() == 0 {
        Err(ValidationError::Empty)
    } else if s.len() > 100 {
        Err(ValidationError::TooLong)
    } else {
        Ok(())
    }
}

/// Checks a text field against the length constraint, in characters.
fn validate_text(text: &String) -> (r: Result<(), ValidationError>)
    ensures
        r == validated_text(text@),
        r is Ok <==> text_valid(text@),
{
    let n = text.as_str().unicode_len();
    if n == 0 {
        Err(ValidationError::Empty)
    } else if n > 100 {
        Err(ValidationError::TooLong)
    } else {
        Ok(())
    }
}

/// The payload accepted by the create operation.
#[derive(Debug)]
pub struct CreateTodo {
    pub text: String,
}

impl View for CreateTodo {
    type V = Seq<char>;

    open spec fn view(&self) -> Seq<char> {
        self.text@
    }
}

impl Clone for CreateTodo {
    fn clone(&self) -> (r: Self)
        ensures
            r == *self,
    {
        CreateTodo { text: self.text.clone() }
    }
}

impl CreateTodo {
    /// The text must hold between 1 and 100 characters.
    pub fn validate(&self) -> (r: Result<(), ValidationError>)
        ensures
            r == validated_text(self@),
            r is Ok <==> text_valid(self@),
    {
        validate_text(&self.text)
    }
}

/// Mathematical model of an update payload.
pub ghost struct UpdateTodoView {
    pub text: Option<Seq<char>>,
    pub completed: Option<bool>,
}

/// The payload accepted by the update operation; a field left out keeps the
/// stored value.
#[derive(Debug)]
pub struct UpdateTodo {
    pub text: Option<String>,
    pub completed: Option<bool>,
}

impl View for UpdateTodo {
    type V = UpdateTodoView;

    open spec fn view(&self) -> UpdateTodoView {
        UpdateTodoView {
            text: match self.text {
                Some(s) => Some(s@),
                None => None,
            },
            completed: self.completed,
        }
    }
}

impl UpdateTodo {
    /// A present text must hold between 1 and 100 characters; an absent one
    /// passes.
    pub fn validate(&self) -> (r: Result<(), ValidationError>)
        ensures
            r == validated_update(self@),
            r is Ok <==> (self@.text matches Some(s) ==> text_valid(s)),
    {
        match &self.text {
            Some(text) => validate_text(text),
            None => Ok(()),
        }
    }
}

/// What validating an update payload yields: only a present text is checked.
pub open spec fn validated_update(u: UpdateTodoView) -> Result<(), ValidationError> {
    match u.text {
        Some(s) => validated_text(s),
        None => Ok(()),
    }
}

/// The record that an update leaves behind: each provided field replaces the
/// stored one, each absent field keeps it; the id never changes.
pub open spec fn merged(t: TodoView, u: UpdateTodoView) -> TodoView {
    TodoView {
        id: t.id,
        text: match u.text {
            Some(s) => s,
            None => t.text,
        },
        completed: match u.completed {
            Some(b) => b,
            None => t.completed,
        },
    }
}

/// Law: an update payload with both fields absent merges to the unchanged
/// record.
pub proof fn lemma_merge_empty_payload(t: TodoView)
    ensures
        merged(t, UpdateTodoView { text: None, completed: None }) == t,
{
}

/// The failures a backend reports; every failure is classified into exactly
/// one of these before it is returned.
#[derive(Debug)]
pub enum RepositoryError {
    /// The requested id is absent from the active backend.
    NotFound(i32),
    /// Any other backend failure, with a description.
    Unexpected(String),
}

/// The storage abstraction: the operations every backend offers. Callers
/// depend only on this interface; the contracts speak of the stored records
/// through the `todos` model.
pub trait TodoRepository: Sized {
    /// The stored records, as a map from id to record model.
    spec fn todos(&self) -> Map<i32, TodoView>;

    /// The backend's internal well-formedness; constructors establish it and
    /// every operation preserves it.
    spec fn wf(&self) -> bool;

    /// The id the backend will assign to the record created next.
    spec fn next_id(&self) -> i32;

    /// Whether the backend can fail with `Unexpected`: an in-memory table
    /// cannot, a store behind a connection can.
    spec fn fallible(&self) -> bool;

    /// Allocates a fresh id and stores a new, not yet completed record with
    /// the payload's text, returning it.
    fn create(&mut self, payload: CreateTodo) -> (r: Result<Todo, RepositoryError>)
        requires
            old(self).wf(),
            old(self).todos().len() < 0x7fff_ffff,
        ensures
            final(self).wf(),
            match r {
                Ok(t) => {
                    &&& t.id == old(self).next_id()
                    &&& t@.text == payload@
                    &&& !t.completed
                    &&& final(self).todos() == old(self).todos().insert(t.id, t@)
                },
                Err(e) => {
                    &&& e is Unexpected
                    &&& old(self).fallible()
                    &&& final(self).todos() == old(self).todos()
                },
            },
            !old(self).fallible() ==> r is Ok,
    ;

    /// Returns the record stored under `id`, or `NotFound(id)`.
    fn find(&self, id: i32) -> (r: Result<Todo, RepositoryError>)
        requires
            self.wf(),
        ensures
            match r {
                Ok(t) => self.todos().contains_key(id) && t@ == self.todos()[id],
                Err(RepositoryError::NotFound(i)) => i == id && !self.todos().contains_key(id),
                Err(RepositoryError::Unexpected(_)) => self.fallible(),
            },
            !self.fallible() ==> (r is Ok <==> self.todos().contains_key(id)),
    ;

    /// Returns every stored record, each id exactly once; the order is
    /// backend-defined.
    fn all(&self) -> (r: Result<Vec<Todo>, RepositoryError>)
        requires
            self.wf(),
        ensures
            match r {
                Ok(v) => {
                    &&& v@.len() == self.todos().len()
                    &&& forall|i: int|
                        #![trigger v@[i]]
                        0 <= i < v@.len() ==> self.todos().contains_key(v@[i].id) && v@[i]@
                            == self.todos()[v@[i].id]
                    &&& forall|i: int, j: int| 0 <= i < j < v@.len() ==> v@[i].id != v@[j].id
                },
                Err(e) => e is Unexpected && self.fallible(),
            },
            !self.fallible() ==> r is Ok,
    ;

    /// Merges the provided fields over the record stored under `id` and
    /// persists the result, or fails with `NotFound(id)`; a failure leaves
    /// the store unchanged.
    fn update(&mut self, id: i32, payload: UpdateTodo) -> (r: Result<Todo, RepositoryError>)
        requires
            old(self).wf(),
        ensures
            final(self).wf(),
            match r {
                Ok(t) => {
                    &&& old(self).todos().contains_key(id)
                    &&& t.id == id
                    &&& t@ == merged(old(self).todos()[id], payload@)
                    &&& final(self).todos() == old(self).todos().insert(id, t@)
                },
                Err(RepositoryError::NotFound(i)) => {
                    &&& i == id
                    &&& !old(self).todos().contains_key(id)
                    &&& final(self).todos() == old(self).todos()
                },
                Err(RepositoryError::Unexpected(_)) => {
                    &&& old(self).fallible()
                    &&& final(self).todos() == old(self).todos()
                },
            },
            !old(self).fallible() ==> (r is Ok <==> old(self).todos().contains_key(id)),
    ;

    /// Removes the record stored under `id`, or fails with `NotFound(id)`; a
    /// failure leaves the store unchanged.
    fn delete(&mut self, id: i32) -> (r: Result<(), RepositoryError>)
        requires
            old(self).wf(),
        ensures
            final(self).wf(),
            match r {
                Ok(_) => {
                    &&& old(self).todos().contains_key(id)
                    &&& final(self).todos() == old(self).todos().remove(id)
                },
                Err(RepositoryError::NotFound(i)) => {
                    &&& i == id
                    &&& !old(self).todos().contains_key(id)
                    &&& final(self).todos() == old(self).todos()
                },
                Err(RepositoryError::Unexpected(_)) => {
                    &&& old(self).fallible()
                    &&& final(self).todos() == old(self).todos()
                },
            },
            !old(self).fallible() ==> (r is Ok <==> old(self).todos().contains_key(id)),
    ;
}

/// Law: after create or update stores record `t` under `id`, a find of `id`
/// on the resulting store yields exactly `t`, and every other id keeps its
/// record.
pub proof fn lemma_find_after_store(m: Map<i32, TodoView>, id: i32, t: TodoView)
    ensures
        m.insert(id, t).contains_key(id),
        m.insert(id, t)[id] == t,
        forall|k: i32|
            k != id ==> (#[trigger] m.insert(id, t).contains_key(k) <==> m.contains_key(k)),
        forall|k: i32| k != id && m.contains_key(k) ==> m.insert(id, t)[k] == m[k],
{
}

/// Law: after delete removes `id`, a find of `id` on the resulting store
/// fails, and every other id keeps its record.
pub proof fn lemma_find_after_delete(m: Map<i32, TodoView>, id: i32)
    ensures
        !m.remove(id).contains_key(id),
        forall|k: i32| k != id ==> (#[trigger] m.remove(id).contains_key(k) <==> m.contains_key(k)),
        forall|k: i32| k != id && m.contains_key(k) ==> m.remove(id)[k] == m[k],
{
}

/// A store's contents seen as a map from id to record model.
spec fn store_view(m: Map<i32, Todo>) -> Map<i32, TodoView> {
    Map::new(|k: i32| m.contains_key(k), |k: i32| m[k]@)
}

proof fn lemma_store_view(m: Map<i32, Todo>)
    ensures
        forall|k: i32| #[trigger] store_view(m).contains_key(k) <==> m.contains_key(k),
        forall|k: i32| m.contains_key(k) ==> store_view(m)[k] == m[k]@,
        store_view(m).dom() == m.dom(),
        store_view(m).len() == m.len(),
{
    assert(store_view(m).dom() =~= m.dom());
}

proof fn lemma_store_view_insert(m: Map<i32, Todo>, id: i32, t: Todo)
    ensures
        store_view(m.insert(id, t)) == store_view(m).insert(id, t@),
{
    assert(store_view(m.insert(id, t)) =~= store_view(m).insert(id, t@));
}

proof fn lemma_store_view_remove(m: Map<i32, Todo>, id: i32)
    ensures
        store_view(m.remove(id)) == store_view(m).remove(id),
{
    assert(store_view(m.remove(id)) =~= store_view(m).remove(id));
}

proof fn lemma_push_contains(s: Seq<i32>, x: i32)
    ensures
        forall|y: i32| #[trigger] s.push(x).contains(y) <==> (s.contains(y) || y == x),
{
    assert forall|y: i32| #[trigger] s.push(x).contains(y) implies (s.contains(y) || y == x) by {
        let i = choose|i: int| 0 <= i < s.push(x).len() && s.push(x)[i] == y;
        if i < s.len() {
            assert(s[i] == y);
        }
    }
    assert forall|y: i32| (s.contains(y) || y == x) implies s.push(x).contains(y) by {
        if s.contains(y) {
            let i = choose|i: int| 0 <= i < s.len() && s[i] == y;
            assert(s.push(x)[i] == y);
        } else {
            assert(s.push(x)[s.len() as int] == y);
        }
    }
}

proof fn lemma_push_no_dup(s: Seq<i32>, x: i32)
    requires
        s.no_duplicates(),
        !s.contains(x),
    ensures
        s.push(x).no_duplicates(),
{
    let t = s.push(x);
    assert forall|i: int, j: int|
        0 <= i < t.len() && 0 <= j < t.len() && i != j implies t[i] != t[j] by {
        if i == s.len() {
            if t[j] == x {
                assert(s[j] == x);
                assert(s.contains(x));
            }
        } else if j == s.len() {
            if t[i] == x {
                assert(s[i] == x);
                assert(s.contains(x));
            }
        }
    }
}

proof fn lemma_remove_at(s: Seq<i32>, i: int)
    requires
        0 <= i < s.len(),
        s.no_duplicates(),
    ensures
        s.remove(i).no_duplicates(),
        forall|k: i32| #[trigger] s.remove(i).contains(k) <==> (s.contains(k) && k != s[i]),
{
    s.remove_ensures(i);
    let t = s.remove(i);
    assert forall|p: int, q: int|
        0 <= p < t.len() && 0 <= q < t.len() && p != q implies t[p] != t[q] by {
        let p0: int = if p < i { p } else { p + 1 };
        let q0: int = if q < i { q } else { q + 1 };
        assert(t[p] == s[p0]);
        assert(t[q] == s[q0]);
    }
    assert forall|k: i32| #[trigger] t.contains(k) implies (s.contains(k) && k != s[i]) by {
        let p = choose|p: int| 0 <= p < t.len() && t[p] == k;
        let p0: int = if p < i { p } else { p + 1 };
        assert(t[p] == s[p0]);
        assert(s.contains(k));
    }
    assert forall|k: i32| (s.contains(k) && k != s[i]) implies t.contains(k) by {
        let p0 = choose|p0: int| 0 <= p0 < s.len() && s[p0] == k;
        let p: int = if p0 < i { p0 } else { p0 - 1 };
        assert(t[p] == s[p0]);
    }
}

/// The in-memory backend: a table from id to record, with the ids kept
/// beside it so the records can be walked. The ids created are `size + 1` at
/// creation time, so an id can be reassigned once records were deleted; an
/// insert under an existing id then overwrites that record.
#[derive(Debug)]
pub struct TodoRepositoryForMemory {
    store: HashMap<i32, Todo>,
    ids: Vec<i32>,
}

impl TodoRepositoryForMemory {
    /// An empty store.
    pub fn new() -> (r: Self)
        ensures
            r.wf(),
            r.todos() == Map::<i32, TodoView>::empty(),
    {
        let r = TodoRepositoryForMemory { store: HashMap::new(), ids: Vec::new() };
        proof {
            assert(r.todos() =~= Map::<i32, TodoView>::empty());
        }
        r
    }

    /// How many records the store holds.
    pub fn len(&self) -> (n: usize)
        ensures
            n == self.todos().len(),
    {
        proof {
            lemma_store_view(self.store@);
        }
        self.store.len()
    }
}

fn index_of_id(ids: &Vec<i32>, id: i32) -> (i: usize)
    requires
        ids@.contains(id),
    ensures
        i < ids@.len(),
        ids@[i as int] == id,
{
    let mut i: usize = 0;
    while i < ids.len()
        invariant
            ids@.contains(id),
            i <= ids@.len(),
            forall|j: int| 0 <= j < i ==> ids@[j] != id,
        decreases ids@.len() - i,
    {
        if ids[i] == id {
            return i;
        }
        i = i + 1;
    }
    proof {
        let w = choose|j: int| 0 <= j < ids@.len() && ids@[j] == id;
        assert(false);
    }
    i
}

impl TodoRepository for TodoRepositoryForMemory {
    closed spec fn todos(&self) -> Map<i32, TodoView> {
        store_view(self.store@)
    }

    closed spec fn wf(&self) -> bool {
        &&& self.ids@.no_duplicates()
        &&& forall|k: i32| #[trigger] self.store@.contains_key(k) <==> self.ids@.contains(k)
        &&& forall|k: i32| #[trigger] self.store@.contains_key(k) ==> self.store@[k].id == k
    }

    open spec fn next_id(&self) -> i32 {
        ((self.todos().len() + 1) as i32)
    }

    open spec fn fallible(&self) -> bool {
        false
    }

    fn create(&mut self, payload: CreateTodo) -> (r: Result<Todo, RepositoryError>) {
        proof {
            lemma_store_view(self.store@);
        }
        let n = self.store.len();
        let id = (n + 1) as i32;
        let todo = Todo::new(id, payload.text);
        let out = todo.clone();
        if !self.store.contains_key(&id) {
            proof {
                lemma_push_contains(self.ids@, id);
                lemma_push_no_dup(self.ids@, id);
            }
            self.ids.push(id);
        }
        let ghost stored = todo;
        self.store.insert(id, todo);
        proof {
            lemma_store_view_insert(old(self).store@, id, stored);
            assert forall|k: i32| #[trigger] self.store@.contains_key(k)
                <==> self.ids@.contains(k) by {
                assert(self.store@ == old(self).store@.insert(id, stored));
            }
        }
        Ok(out)
    }

    fn find(&self, id: i32) -> (r: Result<Todo, RepositoryError>) {
        proof {
            lemma_store_view(self.store@);
        }
        match self.store.get(&id) {
            Some(t) => Ok(t.clone()),
            None => Err(RepositoryError::NotFound(id)),
        }
    }

    fn all(&self) -> (r: Result<Vec<Todo>, RepositoryError>) {
        let mut out: Vec<Todo> = Vec::new();
        let mut i: usize = 0;
        while i < self.ids.len()
            invariant
                self.wf(),
                i <= self.ids@.len(),
                out@.len() == i,
                forall|j: int|
                    #![trigger out@[j]]
                    0 <= j < i ==> {
                        &&& self.todos().contains_key(out@[j].id)
                        &&& out@[j]@ == self.todos()[out@[j].id]
                        &&& out@[j].id == self.ids@[j]
                    },
            decreases self.ids@.len() - i,
        {
            proof {
                lemma_store_view(self.store@);
            }
            let id = self.ids[i];
            assert(self.ids@.contains(id));
            match self.store.get(&id) {
                Some(t) => {
                    out.push(t.clone());
                },
                None => {
                    proof {
                        assert(false);
                    }
                },
            }
            i = i + 1;
        }
        proof {
            lemma_store_view(self.store@);
            self.ids@.unique_seq_to_set();
            assert(self.ids@.to_set() =~= self.store@.dom());
        }
        Ok(out)
    }

    fn update(&mut self, id: i32, payload: UpdateTodo) -> (r: Result<Todo, RepositoryError>) {
        proof {
            lemma_store_view(self.store@);
        }
        let (cur_text, cur_completed) = match self.store.get(&id) {
            Some(t) => (t.text.clone(), t.completed),
            None => {
                return Err(RepositoryError::NotFound(id));
            },
        };
        let text = match payload.text {
            Some(s) => s,
            None => cur_text,
        };
        let completed = match payload.completed {
            Some(b) => b,
            None => cur_completed,
        };
        let todo = Todo { id, text, completed };
        let out = todo.clone();
        let ghost stored = todo;
        self.store.insert(id, todo);
        proof {
            lemma_store_view_insert(old(self).store@, id, stored);
            assert forall|k: i32| #[trigger] self.store@.contains_key(k)
                <==> self.ids@.contains(k) by {
                assert(self.store@ == old(self).store@.insert(id, stored));
            }
        }
        Ok(out)
    }

    fn delete(&mut self, id: i32) -> (r: Result<(), RepositoryError>) {
        proof {
            lemma_store_view(old(self).store@);
        }
        match self.store.remove(&id) {
            None => {
                proof {
                    assert(old(self).store@.remove(id) =~= old(self).store@);
                }
                Err(RepositoryError::NotFound(id))
            },
            Some(_) => {
                proof {
                    assert(old(self).ids@.contains(id));
                }
                let i = index_of_id(&self.ids, id);
                proof {
                    lemma_remove_at(self.ids@, i as int);
                }
                self.ids.remove(i);
                proof {
                    lemma_store_view_remove(old(self).store@, id);
                }
                Ok(())
            },
        }
    }
}

} // verus!
