use vstd::prelude::*;

pub mod adapter;
pub mod arena;
pub mod bytes;
pub mod config;
pub mod error;
pub mod event;
pub mod iface;
pub mod ioctl;
pub mod laws;
pub mod neighbour;
pub mod net_core;
pub mod posix;
pub mod router_device;
pub mod routing;
pub mod seqs;
pub mod socket;
pub mod syscall;
pub mod sysfs_compat;
pub mod text;
pub mod wire;

verus! {

} // verus!
