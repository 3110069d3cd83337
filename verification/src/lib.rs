//! Verified core of a per-step particle visualizer.
//!
//! Each simulation step is described by a tab-separated text file of
//! circular "cell" particles.  This library parses such files into typed
//! records, drives the bounded frame counter, derives the per-step file
//! names, and lays out the exact sequence of drawing commands for a frame.
//! The surrounding program performs the file reads and the actual
//! rasterization.

pub mod frame;
pub mod names;
pub mod num;
pub mod parse;
pub mod record;
pub mod render;
pub mod text;
