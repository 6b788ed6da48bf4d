use crate::todo::{Todo, TodoModel};
use vstd::prelude::*;

verus! {

/// Which todo items are shown.
#[derive(Copy, Clone, Debug, PartialEq, Eq, Structural)]
pub enum Filter {
    All,
    Active,
    Completed,
}

impl Filter {
    /// Whether an item is shown under this filter.
    pub open spec fn admits(self, t: TodoModel) -> bool {
        match self {
            Filter::All => true,
            Filter::Active => !t.finished,
            Filter::Completed => t.finished,
        }
    }

    /// The text shown for this filter.
    pub open spec fn label_of(self) -> Seq<char> {
        match self {
            Filter::All => "All"@,
            Filter::Active => "Active"@,
            Filter::Completed => "Completed"@,
        }
    }

    /// Every filter, in display order.
    pub fn all() -> (r: Vec<Filter>)
        ensures
            r@ == seq![Filter::All, Filter::Active, Filter::Completed],
    {
        vec![Filter::All, Filter::Active, Filter::Completed]
    }

    /// The text shown for this filter.
    pub fn label(&self) -> (r: String)
        ensures
            r@ == self.label_of(),
    {
        match self {
            Filter::All => String::from_str("All"),
            Filter::Active => String::from_str("Active"),
            Filter::Completed => String::from_str("Completed"),
        }
    }

    /// Whether `todo` is shown under this filter.
    pub fn accepts(&self, todo: &Todo) -> (r: bool)
        ensures
            r == self.admits(todo@),
    {
        match self {
            Filter::All => true,
            Filter::Active => !todo.finished,
            Filter::Completed => todo.finished,
        }
    }
}

} // verus!
