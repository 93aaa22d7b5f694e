use vstd::prelude::*;

verus! {

/// What happened, for the passing effects that answer it: the current path
/// changed, going up failed at the base folder, an entry was deleted, or
/// the application is quitting.
#[derive(Clone, Copy, Debug, PartialEq, Eq, Structural, Hash)]
pub enum Event {
    PathChange,
    PathError,
    FileDeleted,
    AppExit,
}

} // verus!
