//! The grammar of the text of an event id.
//!
//! ```text
//!   <event_id> = <label> {<argument>}
//!   <label>    = <text>
//!   <argument> = '\x1E' <text>
//!   <text>     = one or more characters, none of them an ASCII control
//!                character other than white space
//! ```
//!
//! The separator U+001E is an ASCII control character, so it stands in no
//! `<text>`. That is what lets a reader take a text apart again: it has one
//! reading only as a label and arguments.
//!
//! Texts are sequences of characters here. An ASCII character is one byte of
//! the stored text and no other character holds an ASCII byte, so whether a
//! text conforms is the same question for its characters as for its bytes.

use vstd::prelude::*;

verus! {

/// The separator: the one character U+001E.
pub open spec fn separator() -> Seq<char> {
    seq!['\x1E']
}

/// Whether `c` may stand in a label or an argument: it is no ASCII control
/// character (U+0000 to U+001F, and U+007F), or it is one of the white space
/// characters among them (U+0009 to U+000D).
pub open spec fn is_text_char(c: char) -> bool {
    let n = c as u32;
    ||| 0x20 <= n && n != 0x7F
    ||| 0x09 <= n <= 0x0D
}

/// Whether `s` is a `<text>`: not empty, and made of text characters.
pub open spec fn is_text(s: Seq<char>) -> bool {
    &&& s.len() > 0
    &&& forall|i: int| 0 <= i < s.len() ==> is_text_char(#[trigger] s[i])
}

/// Whether every one of `args` is a `<text>`.
pub open spec fn all_text(args: Seq<Seq<char>>) -> bool {
    forall|i: int| 0 <= i < args.len() ==> is_text(#[trigger] args[i])
}

/// The label followed by each argument behind a separator, in order.
pub open spec fn join(label: Seq<char>, args: Seq<Seq<char>>) -> Seq<char>
    decreases args.len(),
{
    if args.len() == 0 {
        label
    } else {
        join(label, args.drop_last()) + separator() + args.last()
    }
}

/// Whether `s` is the text of an event id: a label and arguments, each of
/// them a `<text>`, joined by separators.
pub open spec fn is_event_id_text(s: Seq<char>) -> bool {
    exists|label: Seq<char>, args: Seq<Seq<char>>|
        is_text(label) && all_text(args) && #[trigger] join(label, args) == s
}

/// The separator is no text character, so no `<text>` holds it.
pub proof fn lemma_separator_is_no_text(s: Seq<char>)
    requires
        is_text(s),
    ensures
        !is_text_char('\x1E'),
        !s.contains('\x1E'),
{
}

/// A label and arguments that are each a `<text>` join to the text of an
/// event id; a label alone is one already.
pub proof fn lemma_join_conforms(label: Seq<char>, args: Seq<Seq<char>>)
    requires
        is_text(label),
        all_text(args),
    ensures
        is_event_id_text(join(label, args)),
        is_event_id_text(label),
{
    assert(join(label, Seq::empty()) == label);
    assert(all_text(Seq::<Seq<char>>::empty()));
}

/// The text of an event id has one reading only: two labels with their
/// arguments, each a `<text>`, that join to the same text are the same label
/// and the same arguments.
pub proof fn lemma_one_reading(
    label1: Seq<char>,
    args1: Seq<Seq<char>>,
    label2: Seq<char>,
    args2: Seq<Seq<char>>,
)
    requires
        is_text(label1),
        all_text(args1),
        is_text(label2),
        all_text(args2),
        join(label1, args1) == join(label2, args2),
    ensures
        label1 == label2,
        args1 == args2,
    decreases args1.len(),
{
    let s = join(label1, args1);
    if args1.len() == 0 && args2.len() == 0 {
        assert(args1 =~= args2);
    } else if args1.len() == 0 {
        lemma_separator_is_no_text(label1);
        let at = join(label2, args2.drop_last()).len() as int;
        assert(s[at] == '\x1E');
    } else if args2.len() == 0 {
        lemma_separator_is_no_text(label2);
        let at = join(label1, args1.drop_last()).len() as int;
        assert(s[at] == '\x1E');
    } else {
        let head1 = join(label1, args1.drop_last());
        let head2 = join(label2, args2.drop_last());
        let last1 = args1.last();
        let last2 = args2.last();
        lemma_separator_is_no_text(last1);
        lemma_separator_is_no_text(last2);
        assert(s == head1 + separator() + last1);
        assert(s == head2 + separator() + last2);
        assert(s.len() == head1.len() + 1 + last1.len());
        assert(s.len() == head2.len() + 1 + last2.len());
        // The last separator of the text stands behind either head: were one
        // head the shorter, the argument behind it would hold the separator
        // behind the other.
        if head1.len() < head2.len() {
            let at = head2.len() - head1.len() - 1;
            assert((head2 + separator() + last2)[head2.len() as int] == '\x1E');
            assert((head1 + separator() + last1)[head2.len() as int] == last1[at]);
        } else if head2.len() < head1.len() {
            let at = head1.len() - head2.len() - 1;
            assert((head1 + separator() + last1)[head1.len() as int] == '\x1E');
            assert((head2 + separator() + last2)[head1.len() as int] == last2[at]);
        }
        assert(head1 =~= s.take(head1.len() as int));
        assert(head2 =~= s.take(head2.len() as int));
        assert(last1 =~= s.skip(head1.len() as int + 1));
        assert(last2 =~= s.skip(head2.len() as int + 1));
        assert(all_text(args1.drop_last()));
        assert(all_text(args2.drop_last()));
        lemma_one_reading(label1, args1.drop_last(), label2, args2.drop_last());
        assert(args1 =~= args1.drop_last().push(last1));
        assert(args2 =~= args2.drop_last().push(last2));
    }
}

} // verus!
