//! Batch resizing of a directory of images into JPEG files.
//!
//! A [`batch::Batch`] decides the course of one batch: it takes the listing of
//! the input directory, asks for the output directory, hands out one job per
//! file and turns the outcomes into progress events and a single terminal
//! event. [`transcode`] holds the work on one file between reading it and
//! writing it: decode, fit into the target square, encode as JPEG.
//! [`naming`] forms the paths, [`geometry`] states what a bounding-box resize
//! yields, and [`codec`] reaches the image decoder and the JPEG encoder.
pub mod batch;
pub mod codec;
pub mod geometry;
pub mod naming;
pub mod transcode;
