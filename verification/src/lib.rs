//! Dense arrays of rank one to four over contiguous or strided buffers,
//! with views, reshaping, batch containers and a binary format.
//!
//! Arrays own their buffer; views borrow a stretch of one, each with a
//! shape and a stride of its own.  No operation on a view moves or copies
//! an element.  Every type has a mathematical model, [`strided::Strided`],
//! and every operation says over that model what it returns.
//!
//! The library is verified and holds no floating-point arithmetic.  Arrays
//! are generic in their element type; where the binary format needs the
//! bytes of an element, a 32-bit float is carried as its IEEE-754 bit
//! pattern in a `u32`.

pub mod array1d;
pub mod array2d;
pub mod array3d;
pub mod array4d;
pub mod batch;
pub mod decoder;
pub mod dtype;
pub mod endian;
pub mod format;
pub mod index;
pub mod io;
pub mod linalg;
pub mod prelude;
pub mod reshape;
pub mod serial;
pub mod shared;
pub mod storage;
pub mod strided;
pub mod traits;
pub mod zero;

pub use crate::array1d::{Array1d, Array1dView, Array1dViewMut};
pub use crate::array2d::{Array2d, Array2dView, Array2dViewMut};
pub use crate::array3d::{Array3d, Array3dView, Array3dViewMut};
pub use crate::array4d::{Array4d, Array4dView, Array4dViewMut};
pub use crate::batch::{Batch, BatchArray1d, BatchArray2d, BatchArray3d};
pub use crate::index::{ArrayIndex, Axes};
pub use crate::storage::{Storage, StorageMut};
pub use crate::traits::{
    AliasBytes, AliasBytesMut, AsView, AsViewMut, CastFrom, Flatten, FlattenMut,
    ParallelSetConstant, Reshape, ReshapeMut, SetConstant, View, ViewMut,
};
pub use crate::zero::ZeroBits;
