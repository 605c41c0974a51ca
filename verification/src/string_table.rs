//! The string table of a profiling session.
//!
//! The table holds each text once. A text is handed in as a list of
//! components, pieces of literal text and handles of texts that the table
//! holds already, and is the concatenation of what they stand for.

use vstd::prelude::*;
use vstd::string::*;
use crate::string_id::{StringId, FIRST_REGULAR_STRING_ID};

verus! {

/// The number of texts that a table can hold: one for each handle from
/// `FIRST_REGULAR_STRING_ID` up to the largest 32-bit number.
pub const MAX_STRINGS: usize = 4_194_967_293;

/// One piece of a text that is to be interned.
#[derive(Clone, Copy, Debug)]
pub enum StringComponent<'s> {
    /// The literal text itself.
    Value(&'s str),
    /// The text that a handle stands for.
    Ref(StringId),
}

/// The table after `text` has been interned in `table`: unchanged where the
/// table holds the text already, else longer by that one entry.
pub open spec fn interned(table: Seq<Seq<char>>, text: Seq<char>) -> Seq<Seq<char>> {
    if table.contains(text) {
        table
    } else {
        table.push(text)
    }
}

/// A profiling session, as far as event ids need it: the table of its
/// interned strings. Its view is the sequence of the texts, in the order in
/// which they came; the text at index `i` has the handle with the number
/// `FIRST_REGULAR_STRING_ID + i`.
pub struct Profiler {
    strings: Vec<String>,
}

impl View for Profiler {
    type V = Seq<Seq<char>>;

    closed spec fn view(&self) -> Seq<Seq<char>> {
        self.strings@.map_values(|s: String| s@)
    }
}

impl Profiler {
    /// No text stands twice in the table, and every entry has a handle.
    #[verifier::type_invariant]
    pub open spec fn wf(&self) -> bool {
        &&& self@.len() <= MAX_STRINGS
        &&& self@.no_duplicates()
    }

    /// The index of the entry that `id` would name.
    pub open spec fn slot(id: StringId) -> int {
        id.as_u32() - FIRST_REGULAR_STRING_ID
    }

    /// Whether the table holds a text for `id`.
    pub open spec fn resolves(&self, id: StringId) -> bool {
        0 <= Self::slot(id) < self@.len()
    }

    /// The text that `id` stands for; the empty text where the table holds
    /// none for it.
    pub open spec fn text(&self, id: StringId) -> Seq<char> {
        if self.resolves(id) {
            self@[Self::slot(id)]
        } else {
            Seq::empty()
        }
    }

    /// The text that one component stands for.
    pub open spec fn component_text(&self, component: StringComponent) -> Seq<char> {
        match component {
            StringComponent::Value(s) => s@,
            StringComponent::Ref(id) => self.text(id),
        }
    }

    /// The text that a list of components stands for: the texts of the
    /// components, one behind the other.
    pub open spec fn concat(&self, components: Seq<StringComponent>) -> Seq<char>
        decreases components.len(),
    {
        if components.len() == 0 {
            Seq::empty()
        } else {
            self.concat(components.drop_last()) + self.component_text(components.last())
        }
    }

    /// The handle of `text`, for a text that the table holds.
    pub open spec fn handle_of(&self, text: Seq<char>) -> StringId {
        StringId::new((FIRST_REGULAR_STRING_ID + self@.index_of(text)) as u32)
    }

    /// Whether `text` can be interned: the table holds it already, or has a
    /// handle left for it.
    pub open spec fn can_intern(&self, text: Seq<char>) -> bool {
        self@.contains(text) || self@.len() < MAX_STRINGS
    }

    /// The text of a list of components is the text of all but the last,
    /// followed by the text of the last: components are taken in order.
    pub proof fn lemma_concat_push(self, components: Seq<StringComponent>, last: StringComponent)
        ensures
            self.concat(components.push(last)) == self.concat(components) + self.component_text(
                last,
            ),
    {
        assert(components.push(last).drop_last() =~= components);
    }

    /// Interning takes nothing away: a handle that resolved before still
    /// resolves after, and to the same text.
    pub proof fn lemma_interned_keeps_texts(self, after: Profiler, text: Seq<char>, id: StringId)
        requires
            after@ == interned(self@, text),
            self.resolves(id),
        ensures
            after.resolves(id),
            after.text(id) == self.text(id),
    {
    }

    /// In a table without duplicates a text has one handle only: a handle
    /// that resolves to `text` is `handle_of(text)`.
    pub proof fn lemma_handle_is_unique(self, text: Seq<char>, id: StringId)
        requires
            self.wf(),
            self.resolves(id),
            self.text(id) == text,
        ensures
            id == self.handle_of(text),
    {
        let slot = Self::slot(id);
        assert(self@[slot] == text);
        assert(self@.index_of(text) == slot);
        StringId::lemma_number_round_trip(id, id.as_u32());
    }

    /// Only the handles that tables hand out resolve: none below
    /// `FIRST_REGULAR_STRING_ID` does, and so not the invalid handle.
    pub proof fn lemma_resolved_is_regular(self, id: StringId)
        requires
            self.resolves(id),
        ensures
            id.is_regular(),
            id != StringId::invalid(),
    {
        StringId::lemma_invalid_number();
    }

    /// A session with an empty table.
    pub fn new() -> (p: Profiler)
        ensures
            p@ == Seq::<Seq<char>>::empty(),
            p.wf(),
    {
        let p = Profiler { strings: Vec::new() };
        assert(p@ =~= Seq::<Seq<char>>::empty());
        p
    }

    /// The number of texts in the table.
    pub fn len(&self) -> (n: usize)
        ensures
            n == self@.len(),
            n <= MAX_STRINGS,
    {
        proof {
            use_type_invariant(self);
        }
        self.strings.len()
    }

    /// The text that `id` stands for, or `None` where the table holds none
    /// for it.
    pub fn resolve(&self, id: StringId) -> (text: Option<&str>)
        ensures
            text.is_some() == self.resolves(id),
            text matches Some(t) ==> t@ == self.text(id),
    {
        let raw = id.as_u32();
        if raw < FIRST_REGULAR_STRING_ID {
            return None;
        }
        let slot = (raw - FIRST_REGULAR_STRING_ID) as usize;
        if slot < self.strings.len() {
            Some(self.strings[slot].as_str())
        } else {
            None
        }
    }

    /// Interns the text that `components` stand for and returns its handle.
    ///
    /// A text that the table holds already keeps its handle and the table
    /// stays as it is; a new text goes to the end of the table. Either way
    /// every handle that resolved before resolves to the same text after.
    pub fn alloc_string(&mut self, components: &[StringComponent<'_>]) -> (id: StringId)
        requires
            old(self).can_intern(old(self).concat(components@)),
        ensures
            final(self).wf(),
            final(self)@ == interned(old(self)@, old(self).concat(components@)),
            id == final(self).handle_of(old(self).concat(components@)),
            final(self).resolves(id),
            final(self).text(id) == old(self).concat(components@),
    {
        proof {
            use_type_invariant(&*self);
        }
        let text = self.concat_components(components);
        let found = self.find(&text);
        let slot = match found {
            Some(slot) => slot,
            None => {
                // The table is taken out of the session while it grows, and
                // put back when it is whole again.
                let ghost before = self@;
                let mut grown = Profiler { strings: Vec::new() };
                assert(grown@ =~= Seq::<Seq<char>>::empty());
                core::mem::swap(self, &mut grown);
                let Profiler { mut strings } = grown;
                let slot = strings.len();
                strings.push(text);
                assert(strings@.map_values(|s: String| s@) =~= before.push(text@));
                *self = Profiler { strings };
                slot
            },
        };
        assert(self@[slot as int] == text@);
        assert(self@.index_of(text@) == slot);
        StringId::new(FIRST_REGULAR_STRING_ID + slot as u32)
    }

    /// The concatenation of what the components stand for.
    fn concat_components(&self, components: &[StringComponent<'_>]) -> (text: String)
        ensures
            text@ == self.concat(components@),
    {
        let mut text = String::new();
        let mut i: usize = 0;
        while i < components.len()
            invariant
                i <= components@.len(),
                text@ == self.concat(components@.take(i as int)),
            decreases components@.len() - i,
        {
            assert(components@.take(i + 1).drop_last() =~= components@.take(i as int));
            match components[i] {
                StringComponent::Value(s) => {
                    text.append(s);
                },
                StringComponent::Ref(id) => {
                    match self.resolve(id) {
                        Some(s) => {
                            text.append(s);
                        },
                        None => {
                            assert(text@ + Seq::<char>::empty() =~= text@);
                        },
                    }
                },
            }
            i += 1;
        }
        assert(components@.take(i as int) =~= components@);
        text
    }

    /// The index of `text` in the table, if the table holds it.
    fn find(&self, text: &String) -> (found: Option<usize>)
        ensures
            found.is_some() == self@.contains(text@),
            found matches Some(slot) ==> slot < self@.len() && self@[slot as int] == text@,
    {
        let mut i: usize = 0;
        while i < self.strings.len()
            invariant
                i <= self@.len(),
                self@.len() == self.strings@.len(),
                forall|j: int| 0 <= j < i ==> self@[j] != text@,
            decreases self@.len() - i,
        {
            if self.strings[i] == *text {
                assert(self@[i as int] == text@);
                return Some(i);
            }
            i += 1;
        }
        None
    }
}

} // verus!
