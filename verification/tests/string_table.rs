use measureme::{
    Profiler, StringComponent, StringId, FIRST_REGULAR_STRING_ID, INVALID_STRING_ID, MAX_STRINGS,
};

#[test]
fn string_id_is_its_number() {
    for raw in [0u32, 5, INVALID_STRING_ID, FIRST_REGULAR_STRING_ID, u32::MAX] {
        assert_eq!(StringId::new(raw).as_u32(), raw);
        assert_eq!(StringId::new(StringId::new(raw).as_u32()), StringId::new(raw));
    }
    assert_ne!(StringId::new(1), StringId::new(2));
}

#[test]
fn invalid_string_id() {
    assert_eq!(StringId::invalid().as_u32(), 100_000_002);
    assert_eq!(StringId::invalid(), StringId::new(INVALID_STRING_ID));
    assert_eq!(FIRST_REGULAR_STRING_ID, INVALID_STRING_ID + 1);
}

#[test]
fn every_entry_has_a_handle() {
    assert_eq!(FIRST_REGULAR_STRING_ID as u64 + MAX_STRINGS as u64 - 1, u32::MAX as u64);
}

#[test]
fn new_table_is_empty() {
    let profiler = Profiler::new();
    assert_eq!(profiler.len(), 0);
    assert_eq!(profiler.resolve(StringId::new(FIRST_REGULAR_STRING_ID)), None);
}

#[test]
fn handles_come_in_order() {
    let mut profiler = Profiler::new();
    let a = profiler.alloc_string(&[StringComponent::Value("a")]);
    let b = profiler.alloc_string(&[StringComponent::Value("b")]);
    let c = profiler.alloc_string(&[StringComponent::Value("c")]);
    assert_eq!(a.as_u32(), FIRST_REGULAR_STRING_ID);
    assert_eq!(b.as_u32(), FIRST_REGULAR_STRING_ID + 1);
    assert_eq!(c.as_u32(), FIRST_REGULAR_STRING_ID + 2);
    assert_eq!(profiler.len(), 3);
    assert_eq!(profiler.resolve(a), Some("a"));
    assert_eq!(profiler.resolve(b), Some("b"));
    assert_eq!(profiler.resolve(c), Some("c"));
}

#[test]
fn components_are_concatenated_in_order() {
    let mut profiler = Profiler::new();
    let world = profiler.alloc_string(&[StringComponent::Value("world")]);
    let id = profiler.alloc_string(&[
        StringComponent::Value("hello"),
        StringComponent::Value(", "),
        StringComponent::Ref(world),
        StringComponent::Value("!"),
    ]);
    assert_eq!(profiler.resolve(id), Some("hello, world!"));
    assert_eq!(profiler.resolve(world), Some("world"));
    let twice = profiler.alloc_string(&[StringComponent::Ref(world), StringComponent::Ref(world)]);
    assert_eq!(profiler.resolve(twice), Some("worldworld"));
}

#[test]
fn a_text_is_held_once() {
    let mut profiler = Profiler::new();
    let first = profiler.alloc_string(&[StringComponent::Value("same")]);
    let other = profiler.alloc_string(&[StringComponent::Value("other")]);
    let second = profiler.alloc_string(&[StringComponent::Value("same")]);
    let pieced =
        profiler.alloc_string(&[StringComponent::Value("sa"), StringComponent::Value("me")]);
    let by_ref = profiler.alloc_string(&[StringComponent::Ref(first)]);
    assert_eq!(first, second);
    assert_eq!(first, pieced);
    assert_eq!(first, by_ref);
    assert_ne!(first, other);
    assert_eq!(profiler.len(), 2);
}

#[test]
fn empty_text_can_be_interned() {
    let mut profiler = Profiler::new();
    let empty = profiler.alloc_string(&[]);
    assert_eq!(profiler.resolve(empty), Some(""));
    let again = profiler.alloc_string(&[StringComponent::Value("")]);
    assert_eq!(empty, again);
    assert_eq!(profiler.len(), 1);
}

#[test]
fn only_handles_of_the_table_resolve() {
    let mut profiler = Profiler::new();
    let id = profiler.alloc_string(&[StringComponent::Value("x")]);
    assert_eq!(profiler.resolve(id), Some("x"));
    assert_eq!(profiler.resolve(StringId::invalid()), None);
    assert_eq!(profiler.resolve(StringId::new(0)), None);
    assert_eq!(profiler.resolve(StringId::new(100_000_000)), None);
    assert_eq!(profiler.resolve(StringId::new(FIRST_REGULAR_STRING_ID - 1)), None);
    assert_eq!(profiler.resolve(StringId::new(FIRST_REGULAR_STRING_ID + 1)), None);
    assert_eq!(profiler.resolve(StringId::new(u32::MAX)), None);
}

#[test]
fn unknown_reference_adds_nothing() {
    let mut profiler = Profiler::new();
    let id = profiler.alloc_string(&[
        StringComponent::Value("a"),
        StringComponent::Ref(StringId::new(5)),
        StringComponent::Ref(StringId::invalid()),
        StringComponent::Ref(StringId::new(u32::MAX)),
        StringComponent::Value("b"),
    ]);
    assert_eq!(profiler.resolve(id), Some("ab"));
}

#[test]
fn interning_keeps_earlier_texts() {
    let mut profiler = Profiler::new();
    let mut ids = Vec::new();
    for text in ["zero", "one", "two", "three"] {
        ids.push(profiler.alloc_string(&[StringComponent::Value(text)]));
    }
    assert_eq!(profiler.resolve(ids[0]), Some("zero"));
    assert_eq!(profiler.resolve(ids[1]), Some("one"));
    assert_eq!(profiler.resolve(ids[2]), Some("two"));
    assert_eq!(profiler.resolve(ids[3]), Some("three"));
}

#[test]
fn texts_beyond_ascii() {
    let mut profiler = Profiler::new();
    let name = profiler.alloc_string(&[StringComponent::Value("größe")]);
    let id = profiler.alloc_string(&[
        StringComponent::Ref(name),
        StringComponent::Value("\x1E"),
        StringComponent::Value("日本"),
    ]);
    assert_eq!(profiler.resolve(id), Some("größe\x1E日本"));
}
