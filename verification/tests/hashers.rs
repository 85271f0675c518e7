use std::hash::BuildHasherDefault;
use std::hash::Hasher;
use string_interner::StringInterner;
use string_interner::Sym;
use string_interner::Symbol;

/// A hasher that tells no two inputs apart.
#[derive(Default, Clone)]
struct Flat;

impl Hasher for Flat {
    fn finish(&self) -> u64 {
        0
    }

    fn write(&mut self, _bytes: &[u8]) {}
}

/// A hasher that only looks at the last byte it was given.
#[derive(Default, Clone)]
struct LastByte {
    seen: u8,
}

impl Hasher for LastByte {
    fn finish(&self) -> u64 {
        u64::from(self.seen)
    }

    fn write(&mut self, bytes: &[u8]) {
        if let Some(last) = bytes.last() {
            self.seen = *last;
        }
    }
}

#[test]
fn a_hasher_that_always_collides_changes_no_result() {
    let mut interner: StringInterner<usize, BuildHasherDefault<Flat>> =
        StringInterner::with_hasher(BuildHasherDefault::default());
    for n in 0..300 {
        assert_eq!(interner.get_or_intern(&format!("text {}", n)), n);
    }
    for n in 0..300 {
        let word = format!("text {}", n);
        assert_eq!(interner.get(&word), Some(n));
        assert_eq!(interner.get_or_intern(&word), n);
        assert_eq!(interner.resolve(n), Some(word.as_str()));
    }
    assert_eq!(interner.len(), 300);
    assert_eq!(interner.get("text 300"), None);
}

#[test]
fn the_hasher_has_no_part_in_the_symbols() {
    let words = ["Elephant", "Tiger", "Horse", "Tiger", "Tiger", "Mouse", "Horse", "Tiger"];
    let mut plain: StringInterner<Sym> = StringInterner::new();
    let mut coarse: StringInterner<Sym, BuildHasherDefault<LastByte>> =
        StringInterner::with_capacity_and_hasher(4, BuildHasherDefault::default());
    for word in words {
        assert_eq!(plain.get_or_intern(word), coarse.get_or_intern(word));
    }
    assert_eq!(plain.len(), coarse.len());
    let mut left = plain.iter();
    let mut right = coarse.iter();
    loop {
        let (a, b) = (left.next(), right.next());
        assert_eq!(a, b);
        if a.is_none() {
            break;
        }
    }
    coarse.shrink_to_fit();
    assert_eq!(coarse.get("Mouse").map(Symbol::to_usize), Some(3));
    coarse.clear();
    assert_eq!(coarse.get_or_intern("Mouse").to_usize(), 0);
    let copy = coarse.clone();
    assert_eq!(copy, coarse);
}
