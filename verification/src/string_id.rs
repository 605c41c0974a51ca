//! Handles of the strings that a profiling session has interned.

use vstd::prelude::*;

verus! {

/// The number that stands for "no string".
pub const INVALID_STRING_ID: u32 = 100_000_002;

/// The number of the first string that a string table hands out. The numbers
/// below it are left to the callers, for strings that no table holds.
pub const FIRST_REGULAR_STRING_ID: u32 = 100_000_003;

/// The handle of an interned string: a 32-bit number, two handles being equal
/// when their numbers are.
#[derive(Clone, Copy, PartialEq, Eq, Hash, Debug, Structural)]
pub struct StringId(u32);

impl StringId {
    /// The handle whose number is `id`.
    pub closed spec fn spec_new(id: u32) -> StringId {
        StringId(id)
    }

    /// The number of this handle.
    pub closed spec fn spec_as_u32(self) -> u32 {
        self.0
    }

    /// The handle that stands for "no string".
    pub closed spec fn spec_invalid() -> StringId {
        StringId(INVALID_STRING_ID)
    }

    /// Whether a string table can hand this handle out.
    pub open spec fn is_regular(self) -> bool {
        self.as_u32() >= FIRST_REGULAR_STRING_ID
    }

    #[verifier::when_used_as_spec(spec_invalid)]
    pub fn invalid() -> (id: StringId)
        ensures
            id == StringId::invalid(),
            id.as_u32() == INVALID_STRING_ID,
    {
        StringId(INVALID_STRING_ID)
    }

    #[verifier::when_used_as_spec(spec_new)]
    pub fn new(id: u32) -> (s: StringId)
        ensures
            s == StringId::new(id),
            s.as_u32() == id,
    {
        StringId(id)
    }

    #[verifier::when_used_as_spec(spec_as_u32)]
    pub fn as_u32(self) -> (raw: u32)
        ensures
            raw == self.as_u32(),
    {
        self.0
    }

    /// A handle is its number: building a handle from a number and reading the
    /// number back gives that number, and the other way round gives the handle.
    pub proof fn lemma_number_round_trip(id: StringId, raw: u32)
        ensures
            StringId::new(raw).as_u32() == raw,
            StringId::new(id.as_u32()) == id,
    {
    }

    /// Two handles with the same number are the same handle.
    pub proof fn lemma_equal_numbers(a: StringId, b: StringId)
        requires
            a.as_u32() == b.as_u32(),
        ensures
            a == b,
    {
    }

    /// The invalid handle carries the invalid number, which no table hands out.
    pub proof fn lemma_invalid_number()
        ensures
            StringId::invalid().as_u32() == INVALID_STRING_ID,
            !StringId::invalid().is_regular(),
    {
    }
}

} // verus!
