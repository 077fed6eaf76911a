//! Building blocks for camera work: the colour filter mosaic of a sensor, and
//! the index layout shared by the pieces of a camera calibration problem.

pub mod bayer;
pub mod demosaic;
pub mod jacobian;
pub mod layout;
pub mod mosaic;
pub mod params;
pub mod raster;
pub mod residual;
