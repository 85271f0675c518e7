use string_interner::Sym;
use string_interner::Symbol;

#[test]
fn sym_round_trips_every_index_it_represents() {
    let last = u32::MAX as usize - 1;
    for index in [0, 1, 2, 41, 255, 256, 65_535, 65_536, last - 1, last] {
        assert!(Sym::is_index(index));
        assert_eq!(Sym::from_usize(index).to_usize(), index);
    }
}

#[test]
fn sym_has_no_symbol_from_its_limit_on() {
    assert!(Sym::is_index(u32::MAX as usize - 1));
    assert!(!Sym::is_index(u32::MAX as usize));
    if usize::BITS > 32 {
        assert!(!Sym::is_index((u32::MAX as usize).wrapping_add(1)));
    }
    assert!(!Sym::is_index(usize::MAX));
}

#[test]
fn usize_is_its_own_symbol() {
    for index in [0, 1, 1000, usize::MAX - 1, usize::MAX] {
        assert!(<usize as Symbol>::is_index(index));
        assert_eq!(<usize as Symbol>::from_usize(index), index);
        assert_eq!(Symbol::to_usize(index), index);
    }
}

#[test]
fn equal_indices_give_equal_symbols() {
    assert_eq!(Sym::from_usize(7), Sym::from_usize(7));
    assert_ne!(Sym::from_usize(7), Sym::from_usize(8));
    assert_ne!(Sym::from_usize(0), Sym::from_usize(1));
}

#[test]
fn symbols_are_ordered_as_their_indices() {
    let indices = [0usize, 1, 2, 100, 65_536, u32::MAX as usize - 1];
    for a in indices {
        for b in indices {
            assert_eq!(Sym::from_usize(a) < Sym::from_usize(b), a < b);
            assert_eq!(Sym::from_usize(a).cmp(&Sym::from_usize(b)), a.cmp(&b));
        }
    }
}

#[test]
fn sym_is_thirty_two_bits_wide_and_copyable() {
    assert_eq!(std::mem::size_of::<Sym>(), 4);
    let sym = Sym::from_usize(3);
    let copy = sym;
    assert_eq!(sym, copy);
    assert_eq!(format!("{:?}", sym).is_empty(), false);
}
