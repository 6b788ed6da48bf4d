use crate::filter::Filter;
use crate::state::{items_left_of, step, visible_of, Msg, StateModel};
use crate::todo::TodoModel;
use vstd::prelude::*;

verus! {

broadcast use {vstd::seq_lib::group_to_multiset_ensures, vstd::seq_lib::group_filter_ensures};

/// Filtering keeps every item of `l` when `f` admits them all.
proof fn lemma_visible_when_all_admitted(l: Seq<TodoModel>, f: Filter)
    requires
        forall|i: int| 0 <= i < l.len() ==> f.admits(#[trigger] l[i]),
    ensures
        visible_of(l, f) == l,
    decreases l.len(),
{
    reveal(Seq::filter);
    if l.len() > 0 {
        lemma_visible_when_all_admitted(l.drop_last(), f);
        assert(l.drop_last().push(l.last()) =~= l);
    }
}

/// Filtering keeps nothing of `l` when `f` admits none of its items.
proof fn lemma_visible_when_none_admitted(l: Seq<TodoModel>, f: Filter)
    requires
        forall|i: int| 0 <= i < l.len() ==> !f.admits(#[trigger] l[i]),
    ensures
        visible_of(l, f).len() == 0,
    decreases l.len(),
{
    reveal(Seq::filter);
    if l.len() > 0 {
        lemma_visible_when_none_admitted(l.drop_last(), f);
    }
}

/// Adding an item lengthens the list by one, puts the new unfinished item
/// last, keeps the items before it, and keeps the filter.
pub proof fn lemma_add_todo_appends(s: StateModel, content: String)
    ensures
        step(s, Msg::AddTodo(content)) is Some,
        step(s, Msg::AddTodo(content))->Some_0.todos.len() == s.todos.len() + 1,
        step(s, Msg::AddTodo(content))->Some_0.todos.last() == (TodoModel {
            finished: false,
            content: content@,
        }),
        step(s, Msg::AddTodo(content))->Some_0.todos.subrange(0, s.todos.len() as int) == s.todos,
        step(s, Msg::AddTodo(content))->Some_0.filter == s.filter,
{
    let n = step(s, Msg::AddTodo(content))->Some_0;
    assert(n.todos.subrange(0, s.todos.len() as int) =~= s.todos);
}

/// Toggling the same valid position twice gives back the state.
pub proof fn lemma_toggle_twice(s: StateModel, i: usize)
    requires
        i < s.todos.len(),
    ensures
        step(s, Msg::Toggle(i)) is Some,
        step(step(s, Msg::Toggle(i))->Some_0, Msg::Toggle(i)) == Some(s),
{
    let once = step(s, Msg::Toggle(i))->Some_0;
    let twice = step(once, Msg::Toggle(i))->Some_0;
    assert(twice.todos =~= s.todos);
}

/// Clearing finished items a second time changes nothing.
pub proof fn lemma_clear_completed_idempotent(s: StateModel)
    ensures
        step(s, Msg::ClearCompleted) is Some,
        step(step(s, Msg::ClearCompleted)->Some_0, Msg::ClearCompleted) == step(
            s,
            Msg::ClearCompleted,
        ),
{
    let once = step(s, Msg::ClearCompleted)->Some_0;
    assert forall|i: int| 0 <= i < once.todos.len() implies Filter::Active.admits(
        #[trigger] once.todos[i],
    ) by {
        s.todos.lemma_filter_pred(|t: TodoModel| Filter::Active.admits(t), i);
    }
    lemma_visible_when_all_admitted(once.todos, Filter::Active);
}

/// After marking every item finished, no item is left to do.
pub proof fn lemma_toggle_all_leaves_none(s: StateModel)
    ensures
        step(s, Msg::ToggleAll) is Some,
        items_left_of(step(s, Msg::ToggleAll)->Some_0.todos) == 0,
{
    let l = step(s, Msg::ToggleAll)->Some_0.todos;
    lemma_visible_when_none_admitted(l, Filter::Active);
}

/// The items shown under `Active` and those shown under `Completed` split
/// the items shown under `All`: each of them is shown under `All`, no item
/// is shown under both, and together they hold each item of the list once.
pub proof fn lemma_filters_partition(l: Seq<TodoModel>)
    ensures
        visible_of(l, Filter::All) == l,
        forall|t: TodoModel|
            #[trigger] visible_of(l, Filter::Active).contains(t) ==> visible_of(
                l,
                Filter::All,
            ).contains(t),
        forall|t: TodoModel|
            #[trigger] visible_of(l, Filter::Completed).contains(t) ==> visible_of(
                l,
                Filter::All,
            ).contains(t),
        forall|t: TodoModel|
            !(#[trigger] visible_of(l, Filter::Active).contains(t) && visible_of(
                l,
                Filter::Completed,
            ).contains(t)),
        visible_of(l, Filter::Active).to_multiset().add(
            visible_of(l, Filter::Completed).to_multiset(),
        ) == visible_of(l, Filter::All).to_multiset(),
    decreases l.len(),
{
    lemma_visible_when_all_admitted(l, Filter::All);
    let active = visible_of(l, Filter::Active);
    let completed = visible_of(l, Filter::Completed);
    if l.len() > 0 {
        reveal(Seq::filter);
        let p = l.drop_last();
        lemma_filters_partition(p);
        lemma_visible_when_all_admitted(p, Filter::All);
        assert(p.push(l.last()) =~= l);
        assert(active.to_multiset().add(completed.to_multiset()) =~= l.to_multiset());
    } else {
        assert(active.to_multiset().add(completed.to_multiset()) =~= l.to_multiset());
    }
    assert forall|t: TodoModel| active.contains(t) implies l.contains(t) && !t.finished by {
        let i = choose|i: int| 0 <= i < active.len() && active[i] == t;
        l.lemma_filter_pred(|t: TodoModel| Filter::Active.admits(t), i);
        assert(active.to_multiset().count(t) > 0);
    }
    assert forall|t: TodoModel| completed.contains(t) implies l.contains(t) && t.finished by {
        let i = choose|i: int| 0 <= i < completed.len() && completed[i] == t;
        l.lemma_filter_pred(|t: TodoModel| Filter::Completed.admits(t), i);
        assert(completed.to_multiset().count(t) > 0);
    }
}

} // verus!
