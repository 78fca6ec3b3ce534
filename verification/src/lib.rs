use vstd::prelude::*;

pub mod app_state;
pub mod mesh;
pub mod gpu;
pub mod canvas;
pub mod config;
pub mod xr_loop;

verus! {

} // verus!
