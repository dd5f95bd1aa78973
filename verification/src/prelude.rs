//! The names that most users of the library want in scope.

pub use crate::array1d::{Array1d, Array1dView, Array1dViewMut};
pub use crate::array2d::{Array2d, Array2dView, Array2dViewMut};
pub use crate::array3d::{Array3d, Array3dView, Array3dViewMut};
pub use crate::array4d::{Array4d, Array4dView, Array4dViewMut};
pub use crate::batch::{Batch, BatchArray1d, BatchArray3d};
pub use crate::index::{ArrayIndex, Axes};
pub use crate::serial::{NdArrayDeserialize, NdArraySerialize};
pub use crate::dtype::NdArrayDtype;
pub use crate::traits::{
    AliasBytes, AliasBytesMut, AsView, AsViewMut, Flatten, FlattenMut, ParallelSetConstant,
    Reshape, ReshapeMut, SetConstant, View, ViewMut,
};
pub use crate::zero::ZeroBits;
