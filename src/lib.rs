pub mod convert;
pub mod element;
pub mod index;
pub mod reshape;
pub mod shape;
pub mod tensor;
pub mod view;

pub use convert::Convert;
pub use element::Identities;
pub use index::{Entry, Index};
pub use reshape::ReshapeError;
pub use shape::Shape;
pub use tensor::{ShapeMismatch, Tensor};
pub use view::View;
