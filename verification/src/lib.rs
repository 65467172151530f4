//! Verified core of PebbleCrypt: output naming, batch bookkeeping, stream
//! bookkeeping and the window's form state, around the age file format.
use vstd::prelude::*;

pub mod text;
pub mod job;
pub mod naming;
pub mod plan;
pub mod batch;
pub mod stream;
pub mod password;
pub mod size;
pub mod session;
pub mod transfer;
pub mod cipher;

verus! {
} // verus!
