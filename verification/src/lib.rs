//! Scalar (dot) products of two `u32` sequences under wraparound arithmetic,
//! computed by several interchangeable strategies that are all proved to
//! return the same value.

pub mod equivalence;
pub mod model;
pub mod partition;
pub mod sequential;
pub mod work_stealing;

pub use partition::par_scalar_product;
pub use sequential::{scalar_product, scalar_product_for};
pub use work_stealing::rayon_product;
