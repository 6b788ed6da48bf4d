use crate::filter::Filter;
use crate::todo::{models, Todo, TodoModel};
use vstd::prelude::*;

verus! {

/// A request to change the state.
#[derive(Debug)]
pub enum Msg {
    AddTodo(String),
    Toggle(usize),
    ClearCompleted,
    SetFilter(Filter),
    Destroy(usize),
    ToggleAll,
}

/// Why an action could not be applied.
#[derive(Clone, Copy, Debug, PartialEq, Eq, Structural)]
pub enum StateError {
    /// The action named a position that is not in the list.
    IndexOutOfRange { index: usize, len: usize },
}

/// The list of items and the active filter.
#[derive(Debug)]
pub struct State {
    pub todo_list: Vec<Todo>,
    pub filter: Filter,
}

/// A state as a mathematical value.
pub struct StateModel {
    pub todos: Seq<TodoModel>,
    pub filter: Filter,
}

impl View for State {
    type V = StateModel;

    open spec fn view(&self) -> StateModel {
        StateModel { todos: models(self.todo_list@), filter: self.filter }
    }
}

/// The items of `l` shown under `f`, in list order.
pub open spec fn visible_of(l: Seq<TodoModel>, f: Filter) -> Seq<TodoModel> {
    l.filter(|t: TodoModel| f.admits(t))
}

/// The number of unfinished items of `l`.
pub open spec fn items_left_of(l: Seq<TodoModel>) -> nat {
    visible_of(l, Filter::Active).len()
}

/// `l` with an unfinished item holding `c` appended.
pub open spec fn added(l: Seq<TodoModel>, c: Seq<char>) -> Seq<TodoModel> {
    l.push(TodoModel { finished: false, content: c })
}

/// `l` with the finished flag at position `i` flipped.
pub open spec fn toggled(l: Seq<TodoModel>, i: int) -> Seq<TodoModel> {
    l.update(i, TodoModel { finished: !l[i].finished, content: l[i].content })
}

/// `l` without its finished items, the rest in their order.
pub open spec fn cleared(l: Seq<TodoModel>) -> Seq<TodoModel> {
    visible_of(l, Filter::Active)
}

/// `l` with every item marked finished.
pub open spec fn all_finished(l: Seq<TodoModel>) -> Seq<TodoModel> {
    l.map_values(|t: TodoModel| TodoModel { finished: true, content: t.content })
}

/// The state that `m` leads to from `s`, or `None` where `m` names a
/// position outside the list.
pub open spec fn step(s: StateModel, m: Msg) -> Option<StateModel> {
    match m {
        Msg::AddTodo(c) => Some(StateModel { todos: added(s.todos, c@), filter: s.filter }),
        Msg::Toggle(i) => if i < s.todos.len() {
            Some(StateModel { todos: toggled(s.todos, i as int), filter: s.filter })
        } else {
            None
        },
        Msg::ClearCompleted => Some(StateModel { todos: cleared(s.todos), filter: s.filter }),
        Msg::SetFilter(f) => Some(StateModel { todos: s.todos, filter: f }),
        Msg::Destroy(i) => if i < s.todos.len() {
            Some(StateModel { todos: s.todos.remove(i as int), filter: s.filter })
        } else {
            None
        },
        Msg::ToggleAll => Some(StateModel { todos: all_finished(s.todos), filter: s.filter }),
    }
}

/// A copy of every item of `v`.
fn copy_todos(v: &Vec<Todo>) -> (r: Vec<Todo>)
    ensures
        models(r@) == models(v@),
{
    let mut r: Vec<Todo> = Vec::new();
    let mut i: usize = 0;
    while i < v.len()
        invariant
            i <= v@.len(),
            r@.len() == i,
            forall|k: int| 0 <= k < i ==> #[trigger] r@[k]@ == v@[k]@,
        decreases v@.len() - i,
    {
        r.push(v[i].duplicate());
        i += 1;
    }
    assert(models(r@) =~= models(v@));
    r
}

/// Copies of the items of `v` that `filter` shows, in list order.
fn select(v: &Vec<Todo>, filter: Filter) -> (r: Vec<Todo>)
    ensures
        models(r@) == visible_of(models(v@), filter),
{
    let ghost l = models(v@);
    let mut r: Vec<Todo> = Vec::new();
    let mut i: usize = 0;
    while i < v.len()
        invariant
            i <= v@.len(),
            l == models(v@),
            models(r@) == visible_of(l.subrange(0, i as int), filter),
        decreases v@.len() - i,
    {
        let ghost before = r@;
        proof {
            reveal(Seq::filter);
            let next = l.subrange(0, i + 1);
            assert(next.drop_last() =~= l.subrange(0, i as int));
            assert(next.last() == l[i as int]);
        }
        if filter.accepts(&v[i]) {
            r.push(v[i].duplicate());
            assert(models(r@) =~= models(before).push(v@[i as int]@));
        }
        i += 1;
    }
    assert(l.subrange(0, v@.len() as int) =~= l);
    r
}

/// Copies of the items of `v`, each marked finished.
fn finish_all(v: &Vec<Todo>) -> (r: Vec<Todo>)
    ensures
        models(r@) == all_finished(models(v@)),
{
    let mut r: Vec<Todo> = Vec::new();
    let mut i: usize = 0;
    while i < v.len()
        invariant
            i <= v@.len(),
            r@.len() == i,
            forall|k: int|
                0 <= k < i ==> #[trigger] r@[k]@ == (TodoModel {
                    finished: true,
                    content: v@[k]@.content,
                }),
        decreases v@.len() - i,
    {
        r.push(Todo { finished: true, content: v[i].content.clone() });
        i += 1;
    }
    assert(models(r@) =~= all_finished(models(v@)));
    r
}

impl State {
    /// Copies of the items that the active filter shows, in list order.
    pub fn visible(&self) -> (r: Vec<Todo>)
        ensures
            models(r@) == visible_of(self@.todos, self.filter),
    {
        select(&self.todo_list, self.filter)
    }

    /// The positions in the list of the items that the active filter shows,
    /// in increasing order.
    pub fn visible_indices(&self) -> (r: Vec<usize>)
        ensures
            forall|k: int|
                0 <= k < r@.len() ==> #[trigger] r@[k] < self.todo_list@.len()
                    && self.filter.admits(self.todo_list@[r@[k] as int]@),
            forall|k1: int, k2: int| 0 <= k1 < k2 < r@.len() ==> r@[k1] < r@[k2],
            forall|j: usize|
                j < self.todo_list@.len() && self.filter.admits(self.todo_list@[j as int]@)
                    ==> r@.contains(j),
    {
        let mut r: Vec<usize> = Vec::new();
        let mut i: usize = 0;
        while i < self.todo_list.len()
            invariant
                i <= self.todo_list@.len(),
                forall|k: int|
                    0 <= k < r@.len() ==> #[trigger] r@[k] < i
                        && self.filter.admits(self.todo_list@[r@[k] as int]@),
                forall|k1: int, k2: int| 0 <= k1 < k2 < r@.len() ==> r@[k1] < r@[k2],
                forall|j: usize|
                    j < i && self.filter.admits(self.todo_list@[j as int]@) ==> r@.contains(j),
            decreases self.todo_list@.len() - i,
        {
            if self.filter.accepts(&self.todo_list[i]) {
                let ghost before = r@;
                r.push(i);
                assert forall|j: usize|
                    j < i + 1 && self.filter.admits(self.todo_list@[j as int]@) implies r@.contains(
                    j,
                ) by {
                    if j < i {
                        assert(before.contains(j));
                        let k = choose|k: int| 0 <= k < before.len() && before[k] == j;
                        assert(r@[k] == j);
                    } else {
                        assert(r@[before.len() as int] == j);
                    }
                }
            }
            i += 1;
        }
        r
    }

    /// The number of unfinished items, whatever the active filter.
    pub fn items_left(&self) -> (r: usize)
        ensures
            r == items_left_of(self@.todos),
    {
        let ghost l = self@.todos;
        let mut n: usize = 0;
        let mut i: usize = 0;
        while i < self.todo_list.len()
            invariant
                i <= self.todo_list@.len(),
                l == self@.todos,
                n == visible_of(l.subrange(0, i as int), Filter::Active).len(),
            decreases self.todo_list@.len() - i,
        {
            proof {
                reveal(Seq::filter);
                let next = l.subrange(0, i + 1);
                assert(next.drop_last() =~= l.subrange(0, i as int));
                assert(l[i as int] == self.todo_list@[i as int]@);
                l.subrange(0, i as int).lemma_filter_len(|t: TodoModel| Filter::Active.admits(t));
            }
            if !self.todo_list[i].finished {
                n += 1;
            }
            i += 1;
        }
        assert(l.subrange(0, self.todo_list@.len() as int) =~= l);
        n
    }

    /// Applies `action`, giving the next state; `self` is left as it was.
    /// Fails exactly where `Toggle` or `Destroy` names a position outside
    /// the list.
    pub fn reduce(&self, action: Msg) -> (r: Result<State, StateError>)
        ensures
            match r {
                Ok(next) => step(self@, action) == Some(next@),
                Err(StateError::IndexOutOfRange { index, len }) => {
                    &&& step(self@, action) is None
                    &&& len == self.todo_list@.len()
                    &&& (action == Msg::Toggle(index) || action == Msg::Destroy(index))
                },
            },
    {
        let len = self.todo_list.len();
        match action {
            Msg::AddTodo(content) => {
                let mut todo_list = copy_todos(&self.todo_list);
                let ghost c = content@;
                todo_list.push(Todo::new(content));
                let next = State { todo_list, filter: self.filter };
                assert(next@.todos =~= added(self@.todos, c));
                Ok(next)
            },
            Msg::Toggle(idx) => {
                if idx >= len {
                    return Err(StateError::IndexOutOfRange { index: idx, len });
                }
                let mut todo_list = copy_todos(&self.todo_list);
                let mut t = todo_list[idx].duplicate();
                t.finished = !t.finished;
                todo_list.set(idx, t);
                let next = State { todo_list, filter: self.filter };
                assert(next@.todos =~= toggled(self@.todos, idx as int));
                Ok(next)
            },
            Msg::ClearCompleted => {
                Ok(State { todo_list: select(&self.todo_list, Filter::Active), filter: self.filter })
            },
            Msg::SetFilter(filter) => {
                Ok(State { todo_list: copy_todos(&self.todo_list), filter })
            },
            Msg::Destroy(idx) => {
                if idx >= len {
                    return Err(StateError::IndexOutOfRange { index: idx, len });
                }
                let mut todo_list = copy_todos(&self.todo_list);
                todo_list.remove(idx);
                let next = State { todo_list, filter: self.filter };
                assert(next@.todos =~= self@.todos.remove(idx as int));
                Ok(next)
            },
            Msg::ToggleAll => {
                Ok(State { todo_list: finish_all(&self.todo_list), filter: self.filter })
            },
        }
    }
}

} // verus!
