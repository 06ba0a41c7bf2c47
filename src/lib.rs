//! An authenticated forward proxy core: credential checks, hop-by-hop header
//! sanitizing, request routing, CONNECT tunnel sessions and shutdown policy.
use vstd::prelude::*;

pub mod auth;
pub mod config;
pub mod headers;
pub mod names;
pub mod router;
pub mod shutdown;
pub mod target;
pub mod tunnel;

verus! {

} // verus!
