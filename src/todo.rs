use vstd::prelude::*;

verus! {

/// A todo item as a mathematical value.
pub struct TodoModel {
    pub finished: bool,
    pub content: Seq<char>,
}

/// One todo item.
#[derive(Clone, Debug)]
pub struct Todo {
    pub finished: bool,
    pub content: String,
}

impl View for Todo {
    type V = TodoModel;

    open spec fn view(&self) -> TodoModel {
        TodoModel { finished: self.finished, content: self.content@ }
    }
}

impl PartialEq for Todo {
    fn eq(&self, other: &Todo) -> (r: bool) {
        self.finished == other.finished && self.content == other.content
    }
}

impl vstd::std_specs::cmp::PartialEqSpecImpl for Todo {
    open spec fn obeys_eq_spec() -> bool {
        true
    }

    open spec fn eq_spec(&self, other: &Todo) -> bool {
        self@ == other@
    }
}

impl Todo {
    /// A new, unfinished item.
    pub fn new(content: String) -> (r: Todo)
        ensures
            r@ == (TodoModel { finished: false, content: content@ }),
    {
        Todo { finished: false, content }
    }

    /// A copy of this item.
    pub fn duplicate(&self) -> (r: Todo)
        ensures
            r@ == self@,
    {
        Todo { finished: self.finished, content: self.content.clone() }
    }
}

/// The mathematical value of a list of items.
pub open spec fn models(v: Seq<Todo>) -> Seq<TodoModel> {
    v.map_values(|t: Todo| t@)
}

} // verus!
