pub mod batch;
pub mod idx;
pub mod layer_impls;
pub mod loss_impls;
pub mod model;
pub mod preview;
pub mod util;
