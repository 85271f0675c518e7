use string_interner::DefaultStringInterner;
use string_interner::StringInterner;
use string_interner::Sym;
use string_interner::Symbol;

fn animals() -> StringInterner<Sym> {
    let mut interner = DefaultStringInterner::new();
    for word in ["Elephant", "Tiger", "Horse", "Tiger", "Tiger", "Mouse", "Horse", "Tiger"] {
        interner.get_or_intern(word);
    }
    interner
}

#[test]
fn iter_gives_each_entry_once_in_symbol_order() {
    let interner = animals();
    let mut iter = interner.iter();
    let mut seen: Vec<(usize, String)> = Vec::new();
    while let Some((sym, text)) = iter.next() {
        assert_eq!(interner.resolve(sym), Some(text));
        seen.push((sym.to_usize(), text.to_string()));
    }
    assert_eq!(seen.len(), interner.len());
    assert_eq!(
        seen,
        vec![
            (0, "Elephant".to_string()),
            (1, "Tiger".to_string()),
            (2, "Horse".to_string()),
            (3, "Mouse".to_string()),
        ]
    );
    assert_eq!(iter.next(), None);
    assert_eq!(iter.next(), None);
}

#[test]
fn iter_can_be_started_again() {
    let interner = animals();
    for _ in 0..3 {
        let mut iter = interner.iter();
        let mut count = 0;
        while let Some((sym, _)) = iter.next() {
            assert_eq!(sym.to_usize(), count);
            count += 1;
        }
        assert_eq!(count, 4);
    }
}

#[test]
fn iter_size_hint_counts_what_is_left() {
    let interner = animals();
    let mut iter = interner.iter();
    for left in (1..=4).rev() {
        assert_eq!(iter.size_hint(), (left, Some(left)));
        assert!(iter.next().is_some());
    }
    assert_eq!(iter.size_hint(), (0, Some(0)));
    assert!(iter.next().is_none());
    assert_eq!(iter.size_hint(), (0, Some(0)));
}

#[test]
fn iter_values_gives_the_texts_in_symbol_order() {
    let interner = animals();
    let mut values = interner.iter_values();
    assert_eq!(values.size_hint(), (4, Some(4)));
    assert_eq!(values.next(), Some("Elephant"));
    assert_eq!(values.next(), Some("Tiger"));
    assert_eq!(values.size_hint(), (2, Some(2)));
    assert_eq!(values.next(), Some("Horse"));
    assert_eq!(values.next(), Some("Mouse"));
    assert_eq!(values.size_hint(), (0, Some(0)));
    assert_eq!(values.next(), None);
    assert_eq!(values.next(), None);
}

#[test]
fn into_iter_hands_out_the_owned_texts_in_symbol_order() {
    let interner = animals();
    let mut iter = interner.into_iter();
    assert_eq!(iter.size_hint(), (4, Some(4)));
    assert_eq!(iter.next(), Some((Sym::from_usize(0), String::from("Elephant"))));
    assert_eq!(iter.next(), Some((Sym::from_usize(1), String::from("Tiger"))));
    assert_eq!(iter.size_hint(), (2, Some(2)));
    assert_eq!(iter.next(), Some((Sym::from_usize(2), String::from("Horse"))));
    assert_eq!(iter.next(), Some((Sym::from_usize(3), String::from("Mouse"))));
    assert_eq!(iter.size_hint(), (0, Some(0)));
    assert_eq!(iter.next(), None);
    assert_eq!(iter.next(), None);
}

#[test]
fn traversals_of_an_empty_interner_give_nothing() {
    let interner = DefaultStringInterner::new();
    assert_eq!(interner.iter().next(), None);
    assert_eq!(interner.iter().size_hint(), (0, Some(0)));
    assert_eq!(interner.iter_values().next(), None);
    assert_eq!(interner.iter_values().size_hint(), (0, Some(0)));
    let mut owned = interner.into_iter();
    assert_eq!(owned.size_hint(), (0, Some(0)));
    assert_eq!(owned.next(), None);
}

#[test]
fn reinterning_the_values_in_order_gives_an_equal_interner() {
    let interner = animals();
    let mut rebuilt = DefaultStringInterner::new();
    let mut values = interner.iter_values();
    while let Some(text) = values.next() {
        rebuilt.get_or_intern(text);
    }
    assert_eq!(rebuilt, interner);
    let mut pairs = interner.iter();
    while let Some((sym, text)) = pairs.next() {
        assert_eq!(rebuilt.get(text), Some(sym));
        assert_eq!(rebuilt.resolve(sym), Some(text));
    }
}

#[test]
fn traversal_after_clear_sees_only_the_new_entries() {
    let mut interner = animals();
    interner.clear();
    interner.get_or_intern("Lion");
    let mut iter = interner.iter();
    assert_eq!(iter.next(), Some((Sym::from_usize(0), "Lion")));
    assert_eq!(iter.next(), None);
}

#[test]
fn a_long_traversal_keeps_the_order() {
    let mut interner: StringInterner<usize> = StringInterner::new();
    for n in 0..5_000 {
        interner.get_or_intern(&format!("{:05}", n));
    }
    let mut expected = 0;
    let mut iter = interner.iter();
    while let Some((sym, text)) = iter.next() {
        assert_eq!(sym, expected);
        assert_eq!(text, format!("{:05}", expected));
        expected += 1;
    }
    assert_eq!(expected, 5_000);
    let mut expected = 0;
    let mut owned = interner.into_iter();
    while let Some((sym, text)) = owned.next() {
        assert_eq!(sym, expected);
        assert_eq!(text, format!("{:05}", expected));
        expected += 1;
    }
    assert_eq!(expected, 5_000);
}
