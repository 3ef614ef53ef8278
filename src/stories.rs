use vstd::prelude::*;

verus! {

/// The showcase page of the list item component. It holds no state; this
/// crate defines the type only, and nothing in it draws the page.
pub struct ListItemStory;

} // verus!
