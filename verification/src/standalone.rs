//! Configuration of the standalone copier (the single-binary edition,
//! whose overwrite modes omit `Prompt`).

use std::path::PathBuf;
use vstd::prelude::*;

verus! {

/// Configuration for the copy engine.
#[derive(Debug, Clone)]
pub struct CopyConfig {
    pub source: PathBuf,
    pub destination: PathBuf,
    pub verify: bool,
    pub hash_algorithm: HashAlgorithm,
    pub threads: usize,
    pub recursive: bool,
    pub overwrite: OverwriteMode,
}

#[derive(Debug, Clone, Copy, PartialEq, Eq, Structural)]
pub enum HashAlgorithm {
    Blake3,
    Xxh3,
}

#[derive(Debug, Clone, Copy, PartialEq, Eq, Structural)]
pub enum OverwriteMode {
    Always,
    Skip,
    IfDifferent,
}

impl HashAlgorithm {
    /// The name shown to users ("BLAKE3" or "XXH3-128").
    pub fn label(&self) -> (r: &'static str)
        ensures
            *self == HashAlgorithm::Blake3 ==> r@ == "BLAKE3"@,
            *self == HashAlgorithm::Xxh3 ==> r@ == "XXH3-128"@,
    {
        match self {
            HashAlgorithm::Blake3 => "BLAKE3",
            HashAlgorithm::Xxh3 => "XXH3-128",
        }
    }
}

} // verus!
