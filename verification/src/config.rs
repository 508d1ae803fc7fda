//! Copy configuration, persisted user settings and the command-line
//! spellings of hash algorithms and overwrite modes.

use crate::text::str_equal;
use std::path::PathBuf;
use vstd::prelude::*;

verus! {

#[verifier::external_type_specification]
#[verifier::external_body]
pub struct ExPathBuf(PathBuf);

/// `<PathBuf as Clone>::clone` (std): a clone holds the same path.
pub assume_specification[ <PathBuf as Clone>::clone ](p: &PathBuf) -> (r: PathBuf)
    ensures
        r == *p,
;

/// Configuration for the copy engine.
#[derive(Debug, Clone)]
pub struct CopyConfig {
    pub source: PathBuf,
    pub destination: PathBuf,
    pub verify: bool,
    pub hash_algorithm: HashAlgorithm,
    pub threads: usize,
    pub recursive: bool,
    pub overwrite: OverwriteMode,
}

#[derive(Debug, Clone, Copy, PartialEq, Eq, Structural)]
pub enum HashAlgorithm {
    Blake3,
    Xxh3,
}

#[derive(Debug, Clone, Copy, PartialEq, Eq, Structural)]
pub enum OverwriteMode {
    Always,
    Skip,
    IfDifferent,
    Prompt,
}

/// The display name of each algorithm.
pub open spec fn algorithm_label(a: HashAlgorithm) -> Seq<char> {
    match a {
        HashAlgorithm::Blake3 => "BLAKE3"@,
        HashAlgorithm::Xxh3 => "XXH3-128"@,
    }
}

impl HashAlgorithm {
    /// The name shown to users ("BLAKE3" or "XXH3-128").
    pub fn label(&self) -> (r: &'static str)
        ensures
            r@ == algorithm_label(*self),
    {
        match self {
            HashAlgorithm::Blake3 => "BLAKE3",
            HashAlgorithm::Xxh3 => "XXH3-128",
        }
    }
}

/// Persistent settings stored in the TOML config file.
#[derive(Debug, Clone)]
pub struct FerroConfig {
    pub verify: bool,
    pub hash_algorithm: String,
    pub threads: usize,
    pub overwrite: String,
    pub theme: String,
}

/// Number of logical CPUs available to this process, from `num_cpus::get`.
/// The crate documents that the count is at least one; which count comes
/// back depends on the machine, so nothing more is stated.
#[verifier::external_body]
pub(crate) fn available_cpus() -> (n: usize)
    ensures
        n >= 1,
{
    num_cpus::get()
}

impl FerroConfig {
    /// The settings used when no config file exists: no verification,
    /// XXH3, one thread per CPU, always overwrite, the "cosmic" theme.
    pub fn default() -> (r: Self)
        ensures
            !r.verify,
            r.hash_algorithm@ == "xxh3"@,
            r.threads >= 1,
            r.overwrite@ == "always"@,
            r.theme@ == "cosmic"@,
    {
        FerroConfig {
            verify: false,
            hash_algorithm: "xxh3".to_owned(),
            threads: available_cpus(),
            overwrite: "always".to_owned(),
            theme: "cosmic".to_owned(),
        }
    }
}

/// Lower-cased form of a string, as `str::to_lowercase` computes it.
pub uninterp spec fn lowercase_of(s: Seq<char>) -> Seq<char>;

/// Every character of `s` is ASCII.
pub open spec fn all_ascii(s: Seq<char>) -> bool {
    forall|i: int| 0 <= i < s.len() ==> (#[trigger] s[i] as u32) < 128
}

/// The small letter of an ASCII capital; any other character is kept.
pub open spec fn ascii_lower_char(c: char) -> char {
    match c {
        'A' => 'a',
        'B' => 'b',
        'C' => 'c',
        'D' => 'd',
        'E' => 'e',
        'F' => 'f',
        'G' => 'g',
        'H' => 'h',
        'I' => 'i',
        'J' => 'j',
        'K' => 'k',
        'L' => 'l',
        'M' => 'm',
        'N' => 'n',
        'O' => 'o',
        'P' => 'p',
        'Q' => 'q',
        'R' => 'r',
        'S' => 's',
        'T' => 't',
        'U' => 'u',
        'V' => 'v',
        'W' => 'w',
        'X' => 'x',
        'Y' => 'y',
        'Z' => 'z',
        _ => c,
    }
}

/// The lower-cased form of `s`: spelled out for ASCII text, the named
/// Unicode mapping otherwise.
pub open spec fn lowercase_text(s: Seq<char>) -> Seq<char> {
    if all_ascii(s) {
        s.map_values(|c: char| ascii_lower_char(c))
    } else {
        lowercase_of(s)
    }
}

/// `str::to_lowercase` (std). The result is named: it depends on the
/// characters alone. Unicode's case mapping is not spelled out here, only
/// what it does to ASCII text: capitals become small letters, the rest is
/// kept.
#[verifier::external_body]
pub(crate) fn to_lowercase(s: &str) -> (r: String)
    ensures
        r@ == lowercase_of(s@),
        all_ascii(s@) ==> r@ == s@.map_values(|c: char| ascii_lower_char(c)),
{
    s.to_lowercase()
}

/// Message for an unknown hash algorithm name.
pub open spec fn bad_hash_message() -> Seq<char> {
    "Unsupported hash algorithm. Use 'blake3' or 'xxh3'."@
}

/// Message for an unknown overwrite mode name.
pub open spec fn bad_overwrite_message() -> Seq<char> {
    "Unsupported overwrite mode. Use 'always', 'skip', or 'if-different'."@
}

/// What a lower-cased algorithm name selects.
pub open spec fn spec_hash_from_lowercase(s: Seq<char>) -> Option<HashAlgorithm> {
    if s == "blake3"@ {
        Some(HashAlgorithm::Blake3)
    } else if s == "xxh3"@ || s == "xxhash"@ {
        Some(HashAlgorithm::Xxh3)
    } else {
        None
    }
}

/// What a lower-cased overwrite mode name selects.
pub open spec fn spec_overwrite_from_lowercase(s: Seq<char>) -> Option<OverwriteMode> {
    if s == "always"@ {
        Some(OverwriteMode::Always)
    } else if s == "skip"@ {
        Some(OverwriteMode::Skip)
    } else if s == "if-different"@ {
        Some(OverwriteMode::IfDifferent)
    } else {
        None
    }
}

/// Selects the algorithm named by an already lower-cased string.
pub fn hash_algorithm_from_lowercase(s: &str) -> (r: Result<HashAlgorithm, String>)
    ensures
        match spec_hash_from_lowercase(s@) {
            Some(a) => r == Ok::<HashAlgorithm, String>(a),
            None => r matches Err(m) && m@ == bad_hash_message(),
        },
{
    if str_equal(s, "blake3") {
        Ok(HashAlgorithm::Blake3)
    } else if str_equal(s, "xxh3") || str_equal(s, "xxhash") {
        Ok(HashAlgorithm::Xxh3)
    } else {
        Err("Unsupported hash algorithm. Use 'blake3' or 'xxh3'.".to_owned())
    }
}

/// Parses a hash algorithm name, ignoring case: "blake3", "xxh3" or "xxhash".
pub fn parse_hash_algorithm(s: &str) -> (r: Result<HashAlgorithm, String>)
    ensures
        match spec_hash_from_lowercase(lowercase_of(s@)) {
            Some(a) => r == Ok::<HashAlgorithm, String>(a),
            None => r matches Err(m) && m@ == bad_hash_message(),
        },
{
    let lower = to_lowercase(s);
    hash_algorithm_from_lowercase(lower.as_str())
}

/// Selects the overwrite mode named by an already lower-cased string.
pub fn overwrite_mode_from_lowercase(s: &str) -> (r: Result<OverwriteMode, String>)
    ensures
        match spec_overwrite_from_lowercase(s@) {
            Some(m) => r == Ok::<OverwriteMode, String>(m),
            None => r matches Err(e) && e@ == bad_overwrite_message(),
        },
{
    if str_equal(s, "always") {
        Ok(OverwriteMode::Always)
    } else if str_equal(s, "skip") {
        Ok(OverwriteMode::Skip)
    } else if str_equal(s, "if-different") {
        Ok(OverwriteMode::IfDifferent)
    } else {
        Err("Unsupported overwrite mode. Use 'always', 'skip', or 'if-different'.".to_owned())
    }
}

/// Parses an overwrite mode name, ignoring case: "always", "skip" or
/// "if-different" ("prompt" is not offered on the command line).
pub fn parse_overwrite_mode(s: &str) -> (r: Result<OverwriteMode, String>)
    ensures
        match spec_overwrite_from_lowercase(lowercase_of(s@)) {
            Some(m) => r == Ok::<OverwriteMode, String>(m),
            None => r matches Err(e) && e@ == bad_overwrite_message(),
        },
{
    let lower = to_lowercase(s);
    overwrite_mode_from_lowercase(lower.as_str())
}

} // verus!
