use vstd::prelude::*;

verus! {

/// What a column of the task table shows.
#[derive(Debug, PartialEq, Eq, Clone, Copy, Structural)]
pub enum ColumnId {
    Other,
    Id,
    Content,
    Days,
}

impl Default for ColumnId {
    fn default() -> (r: ColumnId)
        ensures
            r == ColumnId::Other,
    {
        ColumnId::Other
    }
}

/// One column heading: what it shows, its title and its width in cells.
pub struct TableHeaderItem<'a> {
    pub id: ColumnId,
    pub text: &'a str,
    pub width: u16,
}

/// The headings of the task table, left to right.
pub struct TableHeader<'a> {
    pub items: Vec<TableHeaderItem<'a>>,
}

impl<'a> TableHeader<'a> {
    /// The position of the first column that shows `id`.
    pub fn get_index(&self, id: ColumnId) -> (r: Option<usize>)
        ensures
            r is Some ==> r->0 < self.items@.len() && self.items@[r->0 as int].id == id
                && forall|j: int| 0 <= j < r->0 ==> (#[trigger] self.items@[j]).id != id,
            r is None ==> forall|j: int|
                0 <= j < self.items@.len() ==> (#[trigger] self.items@[j]).id != id,
    {
        let mut i: usize = 0;
        while i < self.items.len()
            invariant
                i <= self.items@.len(),
                forall|j: int| 0 <= j < i ==> (#[trigger] self.items@[j]).id != id,
            decreases self.items@.len() - i,
        {
            if self.items[i].id == id {
                return Some(i);
            }
            i = i + 1;
        }
        None
    }
}

} // verus!
