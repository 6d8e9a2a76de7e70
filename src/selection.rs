use vstd::prelude::*;

verus! {

/// The selection after moving down through `selection_data`: the next
/// index, wrapping from the last to the first; 0 with nothing selected or
/// nothing to select.
pub fn on_down_press_handler<T>(selection_data: &[T], selection_index: Option<usize>) -> (r: usize)
    ensures
        selection_index is None ==> r == 0,
        selection_data@.len() == 0 ==> r == 0,
        selection_index is Some && selection_data@.len() > 0 ==> r == (if selection_index->0 + 1
            > selection_data@.len() - 1 {
            0
        } else {
            selection_index->0 + 1
        }),
{
    match selection_index {
        Some(selection_index) => {
            let n = selection_data.len();
            if n > 0 {
                if selection_index >= n - 1 {
                    return 0;
                } else {
                    return selection_index + 1;
                }
            }
            0
        },
        None => 0,
    }
}

/// The selection after moving up through `selection_data`: the previous
/// index, wrapping from the first to the last; 0 with nothing selected or
/// nothing to select.
pub fn on_up_press_handler<T>(selection_data: &[T], selection_index: Option<usize>) -> (r: usize)
    ensures
        selection_index is None ==> r == 0,
        selection_data@.len() == 0 ==> r == 0,
        selection_index is Some && selection_data@.len() > 0 ==> r == (if selection_index->0 > 0 {
            selection_index->0 - 1
        } else {
            selection_data@.len() - 1
        }),
{
    match selection_index {
        Some(selection_index) => {
            let n = selection_data.len();
            if n > 0 {
                if selection_index > 0 {
                    return selection_index - 1;
                } else {
                    return n - 1;
                }
            }
            0
        },
        None => 0,
    }
}

} // verus!
