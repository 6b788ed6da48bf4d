use todomvc::filter::Filter;
use todomvc::state::{Msg, State, StateError};
use todomvc::todo::Todo;

fn todo(content: &str, finished: bool) -> Todo {
    Todo { finished, content: content.to_string() }
}

fn empty() -> State {
    State { todo_list: Vec::new(), filter: Filter::All }
}

fn apply(s: &State, m: Msg) -> State {
    s.reduce(m).expect("action applies")
}

#[test]
fn walkthrough_add_toggle_filter_destroy_clear() {
    let s = apply(&empty(), Msg::AddTodo("a".to_string()));
    let s = apply(&s, Msg::AddTodo("b".to_string()));
    assert_eq!(s.todo_list, vec![todo("a", false), todo("b", false)]);
    let s = apply(&s, Msg::Toggle(0));
    assert_eq!(s.todo_list, vec![todo("a", true), todo("b", false)]);
    assert_eq!(s.items_left(), 1);
    let s = apply(&s, Msg::SetFilter(Filter::Completed));
    assert_eq!(s.visible(), vec![todo("a", true)]);
    let s = apply(&s, Msg::Destroy(1));
    assert_eq!(s.todo_list, vec![todo("a", true)]);
    let s = apply(&s, Msg::ClearCompleted);
    assert_eq!(s.todo_list, Vec::<Todo>::new());
}

#[test]
fn add_todo_appends_unfinished_item() {
    let s = State { todo_list: vec![todo("x", true)], filter: Filter::Active };
    let n = apply(&s, Msg::AddTodo("y".to_string()));
    assert_eq!(n.todo_list.len(), 2);
    assert_eq!(n.todo_list[1], todo("y", false));
    assert_eq!(n.todo_list[0], todo("x", true));
    assert_eq!(n.filter, Filter::Active);
}

#[test]
fn add_todo_accepts_empty_text() {
    let n = apply(&empty(), Msg::AddTodo(String::new()));
    assert_eq!(n.todo_list, vec![todo("", false)]);
}

#[test]
fn reduce_leaves_the_old_state_as_it_was() {
    let s = State { todo_list: vec![todo("x", false)], filter: Filter::All };
    let _ = apply(&s, Msg::ToggleAll);
    assert_eq!(s.todo_list, vec![todo("x", false)]);
}

#[test]
fn toggle_twice_restores_flag() {
    let s = State { todo_list: vec![todo("a", false), todo("b", true)], filter: Filter::All };
    let once = apply(&s, Msg::Toggle(1));
    assert_eq!(once.todo_list, vec![todo("a", false), todo("b", false)]);
    let twice = apply(&once, Msg::Toggle(1));
    assert_eq!(twice.todo_list, s.todo_list);
}

#[test]
fn clear_completed_is_idempotent() {
    let s = State {
        todo_list: vec![todo("a", true), todo("b", false), todo("c", true), todo("d", false)],
        filter: Filter::All,
    };
    let once = apply(&s, Msg::ClearCompleted);
    assert_eq!(once.todo_list, vec![todo("b", false), todo("d", false)]);
    let twice = apply(&once, Msg::ClearCompleted);
    assert_eq!(twice.todo_list, once.todo_list);
}

#[test]
fn toggle_all_leaves_nothing_to_do() {
    let s = State {
        todo_list: vec![todo("a", false), todo("b", true), todo("c", false)],
        filter: Filter::All,
    };
    assert_eq!(s.items_left(), 2);
    let n = apply(&s, Msg::ToggleAll);
    assert_eq!(n.items_left(), 0);
    assert_eq!(n.todo_list, vec![todo("a", true), todo("b", true), todo("c", true)]);
    let again = apply(&n, Msg::ToggleAll);
    assert_eq!(again.todo_list, n.todo_list);
}

#[test]
fn set_filter_keeps_list() {
    let s = State { todo_list: vec![todo("a", true)], filter: Filter::All };
    let n = apply(&s, Msg::SetFilter(Filter::Active));
    assert_eq!(n.filter, Filter::Active);
    assert_eq!(n.todo_list, s.todo_list);
}

#[test]
fn destroy_shifts_later_items() {
    let s = State {
        todo_list: vec![todo("a", false), todo("b", true), todo("c", false)],
        filter: Filter::All,
    };
    let n = apply(&s, Msg::Destroy(0));
    assert_eq!(n.todo_list, vec![todo("b", true), todo("c", false)]);
}

#[test]
fn toggle_out_of_range_is_an_error() {
    let s = State { todo_list: vec![todo("a", false)], filter: Filter::All };
    assert_eq!(s.reduce(Msg::Toggle(1)).err(), Some(StateError::IndexOutOfRange { index: 1, len: 1 }));
    assert_eq!(s.todo_list, vec![todo("a", false)]);
}

#[test]
fn destroy_out_of_range_is_an_error() {
    assert_eq!(
        empty().reduce(Msg::Destroy(0)).err(),
        Some(StateError::IndexOutOfRange { index: 0, len: 0 })
    );
}

#[test]
fn filters_split_the_list() {
    let s = State {
        todo_list: vec![todo("a", true), todo("b", false), todo("c", true)],
        filter: Filter::All,
    };
    let all = apply(&s, Msg::SetFilter(Filter::All));
    let active = apply(&s, Msg::SetFilter(Filter::Active));
    let completed = apply(&s, Msg::SetFilter(Filter::Completed));
    assert_eq!(all.visible(), s.todo_list);
    assert_eq!(active.visible(), vec![todo("b", false)]);
    assert_eq!(completed.visible(), vec![todo("a", true), todo("c", true)]);
    assert_eq!(all.visible_indices(), vec![0, 1, 2]);
    assert_eq!(active.visible_indices(), vec![1]);
    assert_eq!(completed.visible_indices(), vec![0, 2]);
}

#[test]
fn visible_of_empty_list_is_empty() {
    let s = State { todo_list: Vec::new(), filter: Filter::Active };
    assert!(s.visible().is_empty());
    assert!(s.visible_indices().is_empty());
    assert_eq!(s.items_left(), 0);
}

#[test]
fn equal_items_stay_distinct_by_position() {
    let s = State { todo_list: vec![todo("same", false), todo("same", false)], filter: Filter::All };
    let n = apply(&s, Msg::Toggle(1));
    assert_eq!(n.todo_list, vec![todo("same", false), todo("same", true)]);
    assert_eq!(n.items_left(), 1);
}

#[test]
fn filter_all_lists_every_filter_in_order() {
    assert_eq!(Filter::all(), vec![Filter::All, Filter::Active, Filter::Completed]);
}

#[test]
fn filter_labels() {
    assert_eq!(Filter::All.label(), "All");
    assert_eq!(Filter::Active.label(), "Active");
    assert_eq!(Filter::Completed.label(), "Completed");
}

#[test]
fn filter_accepts_by_flag() {
    assert!(Filter::All.accepts(&todo("a", true)));
    assert!(Filter::Active.accepts(&todo("a", false)));
    assert!(!Filter::Active.accepts(&todo("a", true)));
    assert!(Filter::Completed.accepts(&todo("a", true)));
    assert!(!Filter::Completed.accepts(&todo("a", false)));
}

#[test]
fn todo_new_and_duplicate() {
    let t = Todo::new("z".to_string());
    assert_eq!(t, todo("z", false));
    assert_eq!(todo("q", true).duplicate(), todo("q", true));
    assert_ne!(todo("q", true), todo("q", false));
    assert_ne!(todo("q", true), todo("r", true));
}
