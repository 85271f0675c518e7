//! A string interner: every distinct text is stored once and named by a small,
//! copyable symbol that resolves back to the text in constant time.
//!
//! ```
//! use string_interner::DefaultStringInterner;
//! use string_interner::Symbol;
//!
//! let mut interner = DefaultStringInterner::default();
//! let elephant = interner.get_or_intern("Elephant");
//! let tiger = interner.get_or_intern("Tiger");
//! assert_eq!(interner.get_or_intern("Tiger"), tiger);
//! assert_eq!(elephant.to_usize(), 0);
//! assert_eq!(tiger.to_usize(), 1);
//! assert_eq!(interner.resolve(tiger), Some("Tiger"));
//! ```
//!
//! The modules, leaves first:
//!
//! - `symbol`: what a symbol type has to offer, and the two symbol types that
//!   come with the library.
//! - `model`: the interner as a sequence of texts, and what each operation
//!   does to that sequence.
//! - `laws`: what follows for every run of operations.
//! - `interner`: the interner itself, over owned storage and a reverse map
//!   that finds an entry by its content.
//! - `iter`: traversals in the order of the symbols.

mod equality;
pub mod interner;
pub mod iter;
pub mod laws;
pub mod model;
mod reverse;
mod std_ext;
pub mod symbol;
mod text;

pub use interner::DefaultStringInterner;
pub use interner::StringInterner;
pub use iter::IntoIter;
pub use iter::Iter;
pub use iter::Values;
pub use symbol::Sym;
pub use symbol::Symbol;
