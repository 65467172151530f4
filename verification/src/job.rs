//! The processing direction and one planned file.
use vstd::prelude::*;

verus! {

/// Whether files are encrypted into `.age` files or decrypted from them.
#[derive(Clone, Copy, PartialEq, Eq, Debug, Structural)]
pub enum Mode {
    Encrypt,
    Decrypt,
}

impl Default for Mode {
    fn default() -> (m: Self)
        ensures
            m == Mode::Encrypt,
    {
        Mode::Encrypt
    }
}

/// One file to process: the source and the path its result is written to.
#[derive(Clone, Debug)]
pub struct Job {
    pub input: String,
    pub output: String,
}

} // verus!
