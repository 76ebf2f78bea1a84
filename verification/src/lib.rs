//! The verified core of a converter from point clouds to web-ready octrees.
//!
//! A conversion runs in up to two stages: PDAL translates an E57 input to LAS,
//! and PotreeConverter turns the LAS file into an octree. This library decides
//! what happens when: which conversion may run ([`job`]), the course of one
//! conversion ([`pipeline`]) and of its stages ([`stage`], [`poll`],
//! [`potree`], [`stub`]), what a line of output says ([`percent`], [`label`]),
//! where the tools are looked for and how they are started ([`locate`],
//! [`environment`]), and what is read of files and disks ([`files`], [`disk`],
//! [`paths`]). What holds of a whole run is proved in [`conversion`]. The
//! library performs no input or output: the application observes, asks it, and
//! does what it says.
#![allow(unused_imports)]

pub mod conversion;
pub mod disk;
pub mod environment;
pub mod files;
pub mod job;
pub mod label;
pub mod locate;
pub mod paths;
pub mod percent;
pub mod pipeline;
pub mod poll;
pub mod potree;
pub mod report;
pub mod stage;
pub mod stub;
pub mod text;
