//! Halftone footprint generation: turns a grayscale raster into a diagonal
//! lattice of filled dots sized by local intensity, and renders that geometry
//! as footprint text for PCB layout tools.
//!
//! All lengths are integer micrometres; pixel densities are pixels per
//! millimetre.
pub mod geometry;
pub mod footprint;
pub mod config;
pub mod isqrt;
pub mod lemmas;
pub mod raster;
pub mod halftone;
