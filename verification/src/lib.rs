//! The rules of the map maker.
//!
//! The heart of the library recolours raster vegetation maps onto a fixed
//! palette and removes the artefacts that an export leaves behind: an image
//! is cut into tiles ([`partition`]), every pixel is mapped to the nearest
//! palette colour ([`classify`]), noise colours are repaired by a vote among
//! neighbours ([`despeckle`]), and the tiles are put together again
//! ([`processing`]).
//!
//! Around it stand the decisions that the program takes while it sets up a
//! project: which programs it needs, what it asks of 7-Zip and of QGIS, which
//! archive of a download page is the newest. Running programs, reading files
//! and talking to the network are left to the host.

pub mod app_setup;
pub mod classify;
pub mod colour;
pub mod dependency;
pub mod despeckle;
pub mod layers;
pub mod partition;
pub mod processing;
pub mod qgis_api_wrapper;
pub mod raster;
pub mod stages;
pub mod text;
pub mod utils;
pub mod web_request;
