//! Identifiers for input-driven entities, handed out by a counter that the host owns.

use vstd::prelude::*;

verus! {

/// The number of identifiers there are.
pub const INPUT_ID_COUNT: u16 = 256;

/// Identifies one input-driven entity.
#[derive(PartialEq, Eq, Structural, Copy, Clone, Debug)]
pub struct InputId(pub u8);

/// Counts the identifiers handed out so far. A host keeps one counter for as long as it
/// hands out identifiers.
#[derive(PartialEq, Eq, Structural, Copy, Clone, Debug, Default)]
pub struct InputIdCounter {
    /// How many identifiers were handed out.
    pub issued: u16,
}

impl InputIdCounter {
    /// A counter that has handed out nothing.
    pub fn new() -> (counter: Self)
        ensures
            counter.issued == 0,
    {
        Self { issued: 0 }
    }
}

impl InputId {
    /// The identifier with the given number.
    pub fn new(value: u8) -> (id: Self)
        ensures
            id.0 == value,
    {
        Self(value)
    }

    /// The next identifier of `counter`: the identifiers come in ascending order from
    /// zero, each once, and none comes after the last.
    pub fn next(counter: &mut InputIdCounter) -> (id: Option<Self>)
        ensures
            match id {
                Some(id) => {
                    &&& old(counter).issued < INPUT_ID_COUNT
                    &&& id.0 == old(counter).issued
                    &&& final(counter).issued == old(counter).issued + 1
                },
                None => old(counter).issued >= INPUT_ID_COUNT && *final(counter) == *old(counter),
            },
    {
        if counter.issued < INPUT_ID_COUNT {
            let id = Self::new(counter.issued as u8);
            counter.issued = counter.issued + 1;
            Some(id)
        } else {
            None
        }
    }
}

} // verus!
