//! Composable lazy sequences: adapters built from an initializer and a step,
//! pipeline stages, periodic windows and transposition of nested sequences.

pub mod lazy;
pub mod model;
pub mod anonymous;
pub mod composed;
pub mod transpose;
pub mod windows;
pub mod compounds;
pub mod composite;
pub mod laws;

pub use anonymous::{AnonymousIterator, AnonymouslyIterable, Pull, Step};
pub use composed::{ComposedIterable, ComposedIterator};
pub use lazy::{collect, pull, take, Counted, Cursor, Elements, Lazy};
pub use transpose::{transpose_rows, Rows, Transpose, TransposeFlat, Transposing};
pub use windows::{
    windows, windows_2d_of_slices, windows_2d_of_vecs, Blocking, Cyclic, Grid, Window, Windowing,
    Windows, Windows2d,
};
