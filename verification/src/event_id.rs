//! Event ids and the builder that composes them.
//!
//! An event id is the handle of a text that follows the grammar of the module
//! `grammar`: a label, then any number of arguments, each behind a separator.
//! Nothing here holds a label or an argument against that grammar. That they
//! are texts without a separator or another control character is left to the
//! caller; where they are, the composed text conforms.

use vstd::layout::size_of;
use vstd::prelude::*;
use crate::grammar::{all_text, is_event_id_text, is_text, join, lemma_join_conforms, separator};
use crate::parts;
use crate::parts::{made_for, parts_of};
use crate::string_id::{StringId, INVALID_STRING_ID};
use crate::string_table::{interned, Profiler, StringComponent};

verus! {

/// The text that separates the arguments from the label and from each other:
/// the one character U+001E, which is one byte of the stored text.
pub const SEPARATOR_BYTE: &'static str = "\x1E";

/// The number of arguments whose components, with the label and the
/// separators, fit in a buffer without memory from the heap.
pub const INLINE_ARGS: usize = 3;

/// The handle of an interned string that is the text of an event id.
///
/// That the text follows the grammar is a matter of how the event id was made:
/// `from_label` and `from_virtual` take the caller's word for it, and
/// `from_u32` is for numbers that `as_u32` gave earlier.
#[derive(Clone, Copy, Eq, PartialEq, Hash, Debug, Structural)]
pub struct EventId(StringId);

impl EventId {
    /// The handle that this event id wraps.
    pub closed spec fn spec_to_string_id(self) -> StringId {
        self.0
    }

    /// The event id that wraps `label`.
    pub closed spec fn spec_from_label(label: StringId) -> EventId {
        EventId(label)
    }

    /// The number of the wrapped handle.
    pub open spec fn spec_as_u32(self) -> u32 {
        self.to_string_id().as_u32()
    }

    /// The event id that wraps `virtual_id`.
    pub open spec fn spec_from_virtual(virtual_id: StringId) -> EventId {
        EventId::from_label(virtual_id)
    }

    /// The event id that wraps the handle with the number `raw_id`.
    pub open spec fn spec_from_u32(raw_id: u32) -> EventId {
        EventId::from_label(StringId::new(raw_id))
    }

    /// The event id that wraps the invalid handle.
    pub open spec fn spec_invalid() -> EventId {
        EventId::from_label(StringId::invalid())
    }

    /// The event id that stands for "no event id": it wraps the invalid
    /// handle.
    #[verifier::when_used_as_spec(spec_invalid)]
    pub fn invalid() -> (e: EventId)
        ensures
            e == EventId::invalid(),
            e.to_string_id() == StringId::invalid(),
    {
        EventId(StringId::invalid())
    }

    /// The handle that this event id wraps.
    #[inline]
    #[verifier::when_used_as_spec(spec_to_string_id)]
    pub fn to_string_id(self) -> (id: StringId)
        ensures
            id == self.to_string_id(),
    {
        self.0
    }

    /// The number of this event id, under which it is written down.
    #[inline]
    #[verifier::when_used_as_spec(spec_as_u32)]
    pub fn as_u32(self) -> (raw: u32)
        ensures
            raw == self.as_u32(),
            raw == self.to_string_id().as_u32(),
    {
        self.0.as_u32()
    }

    /// The event id of a label without arguments: a label alone is the text of
    /// an event id, so its handle is wrapped as it is.
    #[inline]
    #[verifier::when_used_as_spec(spec_from_label)]
    pub fn from_label(label: StringId) -> (e: EventId)
        ensures
            e == EventId::from_label(label),
            e.to_string_id() == label,
    {
        EventId(label)
    }

    /// The event id of a handle that the caller made up for an event without
    /// a text. It does what `from_label` does.
    #[inline]
    #[verifier::when_used_as_spec(spec_from_virtual)]
    pub fn from_virtual(virtual_id: StringId) -> (e: EventId)
        ensures
            e == EventId::from_label(virtual_id),
            e.to_string_id() == virtual_id,
    {
        EventId(virtual_id)
    }

    /// The event id with the number `raw_id`. Nothing is known of its text:
    /// this is for reading back a number that `as_u32` gave.
    #[inline]
    #[verifier::when_used_as_spec(spec_from_u32)]
    pub fn from_u32(raw_id: u32) -> (e: EventId)
        ensures
            e == EventId::from_u32(raw_id),
            e.as_u32() == raw_id,
    {
        EventId(StringId::new(raw_id))
    }

    /// Wrapping a handle and unwrapping it gives the handle, and the other
    /// way round gives the event id: an event id is the handle it wraps.
    pub proof fn lemma_label_round_trip(label: StringId, e: EventId)
        ensures
            EventId::from_label(label).to_string_id() == label,
            EventId::from_virtual(label).to_string_id() == label,
            EventId::from_label(e.to_string_id()) == e,
    {
    }

    /// Writing an event id as a number and reading the number back gives the
    /// same event id, and reading a number and writing it again gives the
    /// same number.
    pub proof fn lemma_u32_round_trip(e: EventId, raw_id: u32)
        ensures
            EventId::from_u32(e.as_u32()) == e,
            EventId::from_u32(raw_id).as_u32() == raw_id,
    {
        StringId::lemma_number_round_trip(e.to_string_id(), raw_id);
    }

    /// Two event ids with the same number are the same event id.
    pub proof fn lemma_equal_numbers(a: EventId, b: EventId)
        requires
            a.as_u32() == b.as_u32(),
        ensures
            a == b,
    {
        StringId::lemma_equal_numbers(a.to_string_id(), b.to_string_id());
    }

    /// The invalid event id has the number of the invalid handle.
    pub proof fn lemma_invalid_number()
        ensures
            EventId::invalid().as_u32() == StringId::invalid().as_u32(),
            EventId::invalid().as_u32() == INVALID_STRING_ID,
    {
        StringId::lemma_invalid_number();
    }
}

/// The components that make up the event id of `label` and `args`: the label,
/// then for each argument a separator and the argument.
pub open spec fn event_parts(label: StringId, args: Seq<StringId>) -> Seq<StringComponent<'static>>
    decreases args.len(),
{
    if args.len() == 0 {
        seq![StringComponent::Ref(label)]
    } else {
        event_parts(label, args.drop_last()).push(StringComponent::Value(SEPARATOR_BYTE)).push(
            StringComponent::Ref(args.last()),
        )
    }
}

/// The texts of `args` in a session, in the order of `args`.
pub open spec fn arg_texts(profiler: Profiler, args: Seq<StringId>) -> Seq<Seq<char>> {
    args.map_values(|arg: StringId| profiler.text(arg))
}

/// The text of the event id of `label` and `args` in a session: the text of
/// the label, then for each argument, in order, the separator and the text of
/// the argument.
pub open spec fn event_text(profiler: Profiler, label: StringId, args: Seq<StringId>) -> Seq<char> {
    join(profiler.text(label), arg_texts(profiler, args))
}

/// Whether the components of an event id with `n_args` arguments can be
/// collected in one buffer. There are `1 + 2 * n_args` of them. Up to
/// `INLINE_ARGS` arguments they always can; beyond that the buffer is one
/// allocation, and the machine bounds its length and its size in bytes.
pub open spec fn parts_fit(n_args: nat) -> bool {
    ||| n_args <= INLINE_ARGS
    ||| {
        &&& 1 + 2 * n_args <= usize::MAX
        &&& (1 + 2 * n_args) * size_of::<StringComponent<'static>>() <= isize::MAX
    }
}

/// What composing the event id of `label` and `args` makes of a session and
/// gives back: the text of the event id is interned in `before`, which gives
/// `after`, and `e` wraps the handle of that text.
pub open spec fn composes(
    before: Profiler,
    label: StringId,
    args: Seq<StringId>,
    after: Profiler,
    e: EventId,
) -> bool {
    let text = event_text(before, label, args);
    &&& after.wf()
    &&& after@ == interned(before@, text)
    &&& e == EventId::from_label(after.handle_of(text))
    &&& after.resolves(e.to_string_id())
    &&& after.text(e.to_string_id()) == text
}

/// What handing `parts` to the string table in one call makes of a session
/// and gives back.
pub open spec fn interns_parts(
    before: Profiler,
    parts: Seq<StringComponent<'static>>,
    after: Profiler,
    e: EventId,
) -> bool {
    &&& after@ == interned(before@, before.concat(parts))
    &&& e.to_string_id() == after.handle_of(before.concat(parts))
}

/// Composes event ids in the string table of one session.
pub struct EventIdBuilder<'p> {
    /// The session in whose table the event ids are interned.
    pub profiler: &'p mut Profiler,
}

impl<'p> EventIdBuilder<'p> {
    /// A builder for the session `profiler`, which it borrows for as long as
    /// it lives: what the builder makes of the session is what the session is
    /// when the builder is gone.
    pub fn new(profiler: &'p mut Profiler) -> (builder: EventIdBuilder<'p>)
        ensures
            *builder.profiler == *old(profiler),
            *final(builder.profiler) == *final(profiler),
    {
        EventIdBuilder { profiler }
    }

    /// Whether `from_label_and_args` can take `n_args` arguments on this
    /// machine.
    pub fn args_fit(n_args: usize) -> (fit: bool)
        ensures
            fit == parts_fit(n_args as nat),
    {
        if n_args <= INLINE_ARGS {
            return true;
        }
        if n_args > (usize::MAX - 1) / 2 {
            return false;
        }
        let n: usize = 1 + 2 * n_args;
        let size: usize = core::mem::size_of::<StringComponent<'static>>();
        if size == 0 {
            return true;
        }
        let most: usize = (isize::MAX as usize) / size;
        proof {
            lemma_fits_by_division(n as int, size as int, isize::MAX as int);
        }
        n <= most
    }

    /// The event id of a label without arguments. The table is not touched:
    /// the label's own handle is the event id.
    #[inline]
    pub fn from_label(&self, label: StringId) -> (e: EventId)
        ensures
            e == EventId::from_label(label),
            e.to_string_id() == label,
    {
        EventId::from_label(label)
    }

    /// The event id of a label and one argument. Its text, the label, the
    /// separator and the argument, is interned in one step.
    pub fn from_label_and_arg(&mut self, label: StringId, arg: StringId) -> (e: EventId)
        requires
            old(self).profiler.can_intern(event_text(*old(self).profiler, label, seq![arg])),
        ensures
            composes(*old(self).profiler, label, seq![arg], *final(self).profiler, e),
            interns_parts(*old(self).profiler, event_parts(label, seq![arg]), *final(self).profiler, e),
            *final(final(self).profiler) == *final(old(self).profiler),
    {
        let parts = [
            // Label
            StringComponent::Ref(label),
            // Separator
            StringComponent::Value(SEPARATOR_BYTE),
            // Argument
            StringComponent::Ref(arg),
        ];
        proof {
            let args = seq![arg];
            assert(args.drop_last() =~= Seq::<StringId>::empty());
            assert(event_parts(label, args.drop_last()) =~= seq![StringComponent::Ref(label)]);
            assert(parts@ =~= event_parts(label, args));
            lemma_parts_text(*self.profiler, label, args);
        }
        EventId(self.profiler.alloc_string(parts.as_slice()))
    }

    /// The event id of a label and any number of arguments. Its text, the
    /// label and then each argument behind a separator, in the order given,
    /// is interned in one step, whatever the number of arguments.
    pub fn from_label_and_args(&mut self, label: StringId, args: &[StringId]) -> (e: EventId)
        requires
            parts_fit(args@.len()),
            old(self).profiler.can_intern(event_text(*old(self).profiler, label, args@)),
        ensures
            composes(*old(self).profiler, label, args@, *final(self).profiler, e),
            interns_parts(*old(self).profiler, event_parts(label, args@), *final(self).profiler, e),
            *final(final(self).profiler) == *final(old(self).profiler),
    {
        // Up to 7 components stay in the buffer itself: 1 label, 3 arguments
        // and 3 separators.
        let mut parts = parts::with_capacity(1 + args.len() * 2);

        parts::push(&mut parts, StringComponent::Ref(label));
        assert(parts_of(parts) =~= event_parts(label, args@.take(0)));

        let mut i: usize = 0;
        while i < args.len()
            invariant
                i <= args@.len(),
                parts_of(parts) == event_parts(label, args@.take(i as int)),
                made_for(parts) == 1 + 2 * args@.len(),
            decreases args@.len() - i,
        {
            proof {
                lemma_parts_text(*self.profiler, label, args@.take(i as int));
                assert(args@.take(i + 1).drop_last() =~= args@.take(i as int));
            }
            parts::push(&mut parts, StringComponent::Value(SEPARATOR_BYTE));
            parts::push(&mut parts, StringComponent::Ref(args[i]));
            i += 1;
        }
        proof {
            assert(args@.take(i as int) =~= args@);
            lemma_parts_text(*self.profiler, label, args@);
        }
        EventId(self.profiler.alloc_string(parts::as_slice(&parts)))
    }
}

/// The separator constant holds the separator character and nothing else.
pub proof fn lemma_separator_text()
    ensures
        SEPARATOR_BYTE@ == separator(),
{
    reveal_strlit("\x1E");
    assert(SEPARATOR_BYTE@ =~= separator());
}

/// The components of an event id are the label and two for each argument,
/// and they stand for the text of the event id.
pub proof fn lemma_parts_text(profiler: Profiler, label: StringId, args: Seq<StringId>)
    ensures
        event_parts(label, args).len() == 1 + 2 * args.len(),
        profiler.concat(event_parts(label, args)) == event_text(profiler, label, args),
    decreases args.len(),
{
    let parts = event_parts(label, args);
    if args.len() == 0 {
        assert(parts.drop_last() =~= Seq::<StringComponent<'static>>::empty());
        assert(profiler.concat(parts.drop_last()) =~= Seq::<char>::empty());
        assert(profiler.concat(parts) =~= profiler.text(label));
    } else {
        lemma_parts_text(profiler, label, args.drop_last());
        lemma_separator_text();
        let shorter = event_parts(label, args.drop_last());
        profiler.lemma_concat_push(shorter, StringComponent::Value(SEPARATOR_BYTE));
        profiler.lemma_concat_push(
            shorter.push(StringComponent::Value(SEPARATOR_BYTE)),
            StringComponent::Ref(args.last()),
        );
        assert(arg_texts(profiler, args).drop_last() =~= arg_texts(profiler, args.drop_last()));
    }
}

/// One more argument adds the separator and the argument's text behind the
/// text so far, however many arguments there were.
pub proof fn lemma_one_more_arg(profiler: Profiler, label: StringId, args: Seq<StringId>, arg: StringId)
    ensures
        event_text(profiler, label, args.push(arg)) == event_text(profiler, label, args)
            + separator() + profiler.text(arg),
{
    assert(arg_texts(profiler, args.push(arg)).drop_last() =~= arg_texts(profiler, args));
}

/// Without arguments the text of the event id is the text of the label.
pub proof fn lemma_no_args(profiler: Profiler, label: StringId)
    ensures
        event_text(profiler, label, Seq::empty()) == profiler.text(label),
{
}

/// The arguments keep their order: the text of the event id of a label and
/// three arguments is the label's text, then the separator and the text of
/// the first, of the second and of the third argument.
pub proof fn lemma_three_args_in_order(
    profiler: Profiler,
    label: StringId,
    a1: StringId,
    a2: StringId,
    a3: StringId,
)
    ensures
        event_text(profiler, label, seq![a1, a2, a3]) == profiler.text(label) + separator()
            + profiler.text(a1) + separator() + profiler.text(a2) + separator() + profiler.text(
            a3,
        ),
{
    let none = Seq::<StringId>::empty();
    lemma_no_args(profiler, label);
    lemma_one_more_arg(profiler, label, none, a1);
    lemma_one_more_arg(profiler, label, none.push(a1), a2);
    lemma_one_more_arg(profiler, label, none.push(a1).push(a2), a3);
    assert(none.push(a1).push(a2).push(a3) =~= seq![a1, a2, a3]);
}

/// Where the label and every argument stand for a `<text>`, the text of
/// their event id follows the grammar.
pub proof fn lemma_event_text_conforms(profiler: Profiler, label: StringId, args: Seq<StringId>)
    requires
        is_text(profiler.text(label)),
        forall|i: int| 0 <= i < args.len() ==> is_text(profiler.text(#[trigger] args[i])),
    ensures
        is_event_id_text(event_text(profiler, label, args)),
{
    assert(all_text(arg_texts(profiler, args)));
    lemma_join_conforms(profiler.text(label), arg_texts(profiler, args));
}

/// Composing an event id without arguments gives an event id with the text
/// of the label, as `from_label` does. Where the session holds the label, it
/// is the very same event id, and the session stays as it was.
pub proof fn lemma_no_args_is_label(before: Profiler, label: StringId, after: Profiler, e: EventId)
    requires
        before.wf(),
        composes(before, label, Seq::empty(), after, e),
    ensures
        after.text(e.to_string_id()) == after.text(EventId::from_label(label).to_string_id()),
        after.text(e.to_string_id()) == before.text(label),
        before.resolves(label) ==> e == EventId::from_label(label) && after@ == before@,
{
    EventId::lemma_label_round_trip(label, e);
    if before.resolves(label) {
        let text = before.text(label);
        assert(before@[Profiler::slot(label)] == text);
        assert(before@.contains(text));
        before.lemma_handle_is_unique(text, label);
    }
}

/// Whether `id` is the handle that the session hands out next.
pub open spec fn is_next_handle(profiler: Profiler, id: StringId) -> bool {
    Profiler::slot(id) == profiler@.len()
}

/// Whether composing the event id of `label` and `args` leaves the texts of
/// `label` and `args` as they are. It does not where it interns a new text
/// that is not empty while the label or an argument is the handle that the
/// session hands out next: that handle then gets the new text.
pub open spec fn repeatable(profiler: Profiler, label: StringId, args: Seq<StringId>) -> bool {
    let text = event_text(profiler, label, args);
    ||| profiler@.contains(text)
    ||| text.len() == 0
    ||| {
        &&& !is_next_handle(profiler, label)
        &&& forall|i: int| 0 <= i < args.len() ==> !is_next_handle(profiler, #[trigger] args[i])
    }
}

/// Composing the same event id a second time gives the same event id again
/// and leaves the session as the first time left it, wherever the first time
/// left the texts of the label and the arguments as they were.
pub proof fn lemma_same_request_same_id(
    before: Profiler,
    label: StringId,
    args: Seq<StringId>,
    between: Profiler,
    first: EventId,
    after: Profiler,
    second: EventId,
)
    requires
        before.wf(),
        repeatable(before, label, args),
        composes(before, label, args, between, first),
        composes(between, label, args, after, second),
    ensures
        second == first,
        after@ == between@,
{
    let text = event_text(before, label, args);
    assert forall|id: StringId|
        id == label || args.contains(id) implies #[trigger] between.text(id) == before.text(
        id,
    ) by {
        if !before@.contains(text) && text.len() != 0 {
            assert(!is_next_handle(before, id));
        }
    }
    lemma_event_text_same(before, between, label, args);
    assert(between@[Profiler::slot(first.to_string_id())] == text);
    assert(between@.contains(text));
}

/// The text of an event id depends on the session only through the texts of
/// the label and of the arguments.
pub proof fn lemma_event_text_same(a: Profiler, b: Profiler, label: StringId, args: Seq<StringId>)
    requires
        b.text(label) == a.text(label),
        forall|id: StringId| args.contains(id) ==> #[trigger] b.text(id) == a.text(id),
    ensures
        event_text(b, label, args) == event_text(a, label, args),
{
    assert forall|i: int| 0 <= i < args.len() implies arg_texts(b, args)[i] == arg_texts(
        a,
        args,
    )[i] by {
        assert(args.contains(args[i]));
    }
    assert(arg_texts(b, args) =~= arg_texts(a, args));
}

/// For a positive `size`, `n * size` is at most `limit` exactly when `n` is at
/// most `limit / size`.
proof fn lemma_fits_by_division(n: int, size: int, limit: int)
    requires
        0 <= n,
        0 < size,
        0 <= limit,
    ensures
        (n * size <= limit) == (n <= limit / size),
{
    assert((n * size <= limit) == (n <= limit / size)) by (nonlinear_arith)
        requires
            0 <= n,
            0 < size,
            0 <= limit,
    ;
}

} // verus!
