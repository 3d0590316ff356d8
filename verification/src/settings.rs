//! The settings that tweak how an archive is built.

use vstd::prelude::*;

verus! {

/// A whole number of percent, from 0 to 100.
#[derive(Clone, Copy, Debug, PartialEq, Eq)]
pub struct PercentageInteger {
    value: u8,
}

impl PercentageInteger {
    #[verifier::type_invariant]
    spec fn in_range(self) -> bool {
        self.value <= 100
    }

    /// The number of percent.
    pub closed spec fn percent(self) -> u8 {
        self.value
    }

    /// Makes a percentage out of `value`, if it is at most 100.
    pub fn new(value: u8) -> (made: Option<Self>)
        ensures
            made.is_some() <==> value <= 100,
            made matches Some(p) ==> p.percent() == value,
    {
        if value <= 100 {
            Some(PercentageInteger { value })
        } else {
            None
        }
    }

    /// The number of percent, which is at most 100.
    pub fn get(&self) -> (value: u8)
        ensures
            value == self.percent(),
            value <= 100,
    {
        proof {
            use_type_invariant(self);
        }
        self.value
    }
}

/// Settings that tweak how an archive is built.
#[derive(Clone, Copy, Debug)]
pub struct SquashZipSettings {
    /// The number of Zopfli iterations meant for files of about 1 MiB that
    /// are to be deflated. The caller scales it to each file's size. Zero
    /// means to never compress.
    pub zopfli_iterations: u8,
    /// Whether squash times are stored in the archive, which lets a later
    /// run reuse its entries.
    pub store_squash_time: bool,
    /// Whether records are obfuscated.
    pub enable_obfuscation: bool,
    /// Whether entries with identical payloads share one stored copy.
    pub enable_deduplication: bool,
    /// Whether obfuscations that may make the archive bigger are allowed.
    pub enable_size_increasing_obfuscation: bool,
    /// The share of records that favour resistance over compressibility
    /// when obfuscated.
    pub percentage_of_records_tuned_for_obfuscation_discretion: PercentageInteger,
    /// Whether quirks of how older Java versions accept obfuscated archives
    /// are worked around.
    pub workaround_old_java_obfuscation_quirks: bool,
    /// The size in bytes of the in-memory buffer in front of spooled
    /// temporary files. The buffer for one input file has half this size.
    pub spool_buffer_size: usize,
}

} // verus!
