//! Container resource configuration and the two human-readable size parsers.
//!
//! A size string is a decimal number with at most one trailing unit letter
//! (`k`, `m`, `g`, case-insensitive). A trailing digit means the whole string
//! is the number and no unit was given; a trailing letter other than the
//! three units contributes no scaling.
use vstd::prelude::*;

use crate::SynthesisError;
use crate::text::{spec_all_digits, spec_digits_val};

verus! {

/// Exponent of 1024 a trailing unit letter stands for.
pub open spec fn spec_unit_exp(c: char) -> int {
    if c == 'k' || c == 'K' {
        1
    } else if c == 'm' || c == 'M' {
        2
    } else if c == 'g' || c == 'G' {
        3
    } else {
        0
    }
}

pub open spec fn spec_is_unit_letter(c: char) -> bool {
    c == 'k' || c == 'K' || c == 'm' || c == 'M' || c == 'g' || c == 'G'
}

/// The numeric part of a size string: everything but a trailing
/// non-digit unit candidate.
pub open spec fn spec_size_digits(s: Seq<char>) -> Seq<char> {
    if s.len() == 0 {
        s
    } else if crate::text::spec_is_digit(s.last()) {
        s
    } else {
        s.drop_last()
    }
}

/// The scaling exponent of a size string: taken from a trailing unit letter,
/// otherwise zero.
pub open spec fn spec_size_exp(s: Seq<char>) -> int {
    if s.len() == 0 {
        0
    } else if spec_is_unit_letter(s.last()) {
        spec_unit_exp(s.last())
    } else {
        0
    }
}

pub open spec fn spec_pow1024(e: int) -> int {
    if e == 1 {
        1024
    } else if e == 2 {
        1048576
    } else if e == 3 {
        1073741824
    } else {
        1
    }
}

/// What a memory-limit string denotes in bytes, if anything: its numeric part
/// times 1024 to the unit's exponent, provided the numeric part is a
/// non-empty digit string and the product fits in a `u64`.
pub open spec fn spec_parse_memory(s: Seq<char>) -> Option<u64> {
    let digits = spec_size_digits(s);
    let value = spec_digits_val(digits) * spec_pow1024(spec_size_exp(s));
    if digits.len() > 0 && spec_all_digits(digits) && value <= u64::MAX {
        Some(value as u64)
    } else {
        None
    }
}

/// The binary-quantity suffix a unit letter maps to.
pub open spec fn spec_storage_suffix(s: Seq<char>) -> Seq<char> {
    if s.len() == 0 {
        Seq::empty()
    } else if s.last() == 'k' || s.last() == 'K' {
        "Ki"@
    } else if s.last() == 'm' || s.last() == 'M' {
        "Mi"@
    } else if s.last() == 'g' || s.last() == 'G' {
        "Gi"@
    } else {
        Seq::empty()
    }
}

/// What a storage-size string is rewritten to: its numeric part followed by
/// the orchestrator's binary suffix for the unit letter. No numeric
/// conversion happens.
pub open spec fn spec_parse_storage(s: Seq<char>) -> Seq<char> {
    spec_size_digits(s) + spec_storage_suffix(s)
}

/// Optional memory limit in bytes, the storage quantity string, and whether
/// persistent storage is requested at all.
#[derive(Clone, Debug, PartialEq)]
pub struct ContainerConfig {
    pub memory_limit: Option<u64>,
    pub kubernetes_storage_size: String,
    pub kubernetes_storage_enable: bool,
}

impl ContainerConfig {
    pub fn new(
        memory_limit: Option<u64>,
        kubernetes_storage_size: String,
        kubernetes_storage_enable: bool,
    ) -> (r: ContainerConfig)
        ensures
            r.memory_limit == memory_limit,
            r.kubernetes_storage_size == kubernetes_storage_size,
            r.kubernetes_storage_enable == kubernetes_storage_enable,
    {
        ContainerConfig { memory_limit, kubernetes_storage_size, kubernetes_storage_enable }
    }

    /// Parses a memory-limit string into bytes. Fails exactly when the
    /// numeric part is empty, holds a non-digit, or the scaled value does
    /// not fit in a `u64`.
    pub fn parse_from_memory_string(s: &str) -> (r: Result<u64, SynthesisError>)
        ensures
            match r {
                Ok(v) => spec_parse_memory(s@) == Some(v),
                Err(e) => spec_parse_memory(s@) is None && e == SynthesisError::InvalidSizeFormat,
            },
    {
        let n = s.unicode_len();
        if n == 0 {
            return Err(SynthesisError::InvalidSizeFormat);
        }
        let last = s.get_char(n - 1);
        let u = last as u32;
        let is_digit = 48 <= u && u <= 57;
        let digits: &str = if is_digit {
            s
        } else {
            s.substring_char(0, n - 1)
        };
        proof {
            assert(s@.subrange(0, n - 1) =~= s@.drop_last());
            assert(s@.last() == last);
        }
        let factor: u64 = if last == 'k' || last == 'K' {
            1024
        } else if last == 'm' || last == 'M' {
            1048576
        } else if last == 'g' || last == 'G' {
            1073741824
        } else {
            1
        };
        proof {
            assert(factor == spec_pow1024(spec_size_exp(s@)));
        }
        match crate::text::parse_u64_digits(digits) {
            None => {
                proof {
                    if digits@.len() > 0 && spec_all_digits(digits@) {
                        crate::text::lemma_digits_val_nonneg(digits@);
                        assert(spec_digits_val(digits@) * spec_pow1024(spec_size_exp(s@))
                            >= spec_digits_val(digits@)) by (nonlinear_arith)
                            requires
                                spec_digits_val(digits@) >= 0,
                                spec_pow1024(spec_size_exp(s@)) >= 1,
                        ;
                    }
                }
                Err(SynthesisError::InvalidSizeFormat)
            },
            Some(v) => {
                match v.checked_mul(factor) {
                    Some(bytes) => Ok(bytes),
                    None => Err(SynthesisError::InvalidSizeFormat),
                }
            },
        }
    }

    /// Rewrites a storage-size string into the orchestrator's binary-quantity
    /// syntax, e.g. a trailing `m` becomes `Mi`.
    pub fn parse_from_storage_string(s: &str) -> (r: String)
        ensures
            r@ == spec_parse_storage(s@),
    {
        let n = s.unicode_len();
        if n == 0 {
            return String::new();
        }
        let last = s.get_char(n - 1);
        let u = last as u32;
        let is_digit = 48 <= u && u <= 57;
        let mut r: String;
        if is_digit {
            r = String::from_str(s);
        } else {
            let piece = s.substring_char(0, n - 1);
            proof {
                assert(s@.subrange(0, n - 1) =~= s@.drop_last());
            }
            r = String::from_str(piece);
        }
        if last == 'k' || last == 'K' {
            r.append("Ki");
        } else if last == 'm' || last == 'M' {
            r.append("Mi");
        } else if last == 'g' || last == 'G' {
            r.append("Gi");
        }
        r
    }

    /// The storage quantity applied when no configuration names one.
    pub fn default_storage() -> (r: String)
        ensures
            r@ == "1Gi"@,
    {
        String::from_str("1Gi")
    }

    pub fn memory_limit(&self) -> (r: Option<u64>)
        ensures
            r == self.memory_limit,
    {
        self.memory_limit
    }

    pub fn kubernetes_storage_size(&self) -> (r: &String)
        ensures
            r == &self.kubernetes_storage_size,
    {
        &self.kubernetes_storage_size
    }

    pub fn kubernetes_storage_enable(&self) -> (r: bool)
        ensures
            r == self.kubernetes_storage_enable,
    {
        self.kubernetes_storage_enable
    }
}

impl Default for ContainerConfig {
    /// No memory limit, `1Gi` of storage, storage disabled.
    fn default() -> (r: ContainerConfig)
        ensures
            r.memory_limit is None,
            r.kubernetes_storage_size@ == "1Gi"@,
            !r.kubernetes_storage_enable,
    {
        ContainerConfig {
            memory_limit: None,
            kubernetes_storage_size: String::from_str("1Gi"),
            kubernetes_storage_enable: false,
        }
    }
}

} // verus!
