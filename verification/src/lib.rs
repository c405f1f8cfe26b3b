#![allow(non_camel_case_types)]

pub mod amp;
pub mod arp;
pub mod audio;
pub mod env;
pub mod fixed;
pub mod mix;
pub mod osc;
pub mod rvb;
pub mod sequencer;
pub mod util;
