//! Configuration validation.

use vstd::prelude::*;
use vstd::string::*;
use crate::errors::Error;
use crate::float_bits::float_le;
use crate::float_bits::infinite;
use crate::float_bits::is_infinite;
use crate::float_bits::is_nan;
use crate::float_bits::le;
use crate::float_bits::nan;
use crate::float_bits::ONE_BITS;
use crate::float_bits::ZERO_BITS;
use crate::text::blank;
use crate::text::chars_of;
use crate::text::is_blank;

verus! {

/// The configuration values that are validated. The threshold and the weight
/// are binary64 bit patterns.
pub struct ConfigValidator {
    /// Path to the database file.
    pub database_path: String,
    /// Identifier of the embedding model.
    pub embedding_model: String,
    /// Similarity at or above which a stored memory conflicts with an addition.
    pub similarity_threshold: u64,
    /// Recency weight for search ranking.
    pub recency_weight: u64,
}

/// A number from 0 to 1, both included.
pub open spec fn is_unit_fraction(bits: u64) -> bool {
    float_le(ZERO_BITS, bits) && float_le(bits, ONE_BITS)
}

/// The rule that a fraction named `what` breaks, in words.
pub open spec fn fraction_fault_text(what: Seq<char>, bits: u64) -> Seq<char> {
    if is_nan(bits) || is_infinite(bits) {
        "Invalid "@ + what + ": NaN and infinity are not allowed"@
    } else {
        "Invalid "@ + what + " (must be between 0.0 and 1.0)"@
    }
}

fn validate_fraction(what: &str, bits: u64) -> (r: Result<(), Error>)
    ensures
        is_unit_fraction(bits) <==> r is Ok,
        r matches Err(e) ==> (e matches Error::Config(msg) && msg@ == fraction_fault_text(
            what@,
            bits,
        )),
{
    if nan(bits) || infinite(bits) {
        let mut m = String::from_str("Invalid ");
        m.append(what);
        m.append(": NaN and infinity are not allowed");
        proof {
            lemma_infinity_is_no_fraction(bits);
        }
        return Err(Error::Config(m));
    }
    if !le(ZERO_BITS, bits) || !le(bits, ONE_BITS) {
        let mut m = String::from_str("Invalid ");
        m.append(what);
        m.append(" (must be between 0.0 and 1.0)");
        return Err(Error::Config(m));
    }
    Ok(())
}

proof fn lemma_infinity_is_no_fraction(bits: u64)
    requires
        is_nan(bits) || is_infinite(bits),
    ensures
        !is_unit_fraction(bits),
{
    assert(0x3FF0_0000_0000_0000u64 & 0x7FFF_FFFF_FFFF_FFFFu64 == 0x3FF0_0000_0000_0000u64)
        by (bit_vector);
    assert(0x3FF0_0000_0000_0000u64 & 0x8000_0000_0000_0000u64 == 0) by (bit_vector);
    assert(0u64 & 0x7FFF_FFFF_FFFF_FFFFu64 == 0) by (bit_vector);
    assert(0u64 & 0x8000_0000_0000_0000u64 == 0) by (bit_vector);
}

impl ConfigValidator {
    /// Every value meets its rule.
    pub open spec fn is_valid(&self) -> bool {
        &&& is_unit_fraction(self.similarity_threshold)
        &&& is_unit_fraction(self.recency_weight)
        &&& !is_blank(self.embedding_model@)
        &&& self.database_path@.len() > 0
    }

    /// The text of the first rule that is broken, in the order in which the
    /// rules are checked.
    pub open spec fn fault_text(&self) -> Seq<char> {
        if !is_unit_fraction(self.similarity_threshold) {
            fraction_fault_text("similarity threshold"@, self.similarity_threshold)
        } else if !is_unit_fraction(self.recency_weight) {
            fraction_fault_text("recency weight"@, self.recency_weight)
        } else if is_blank(self.embedding_model@) {
            "Embedding model cannot be empty"@
        } else {
            "Database path cannot be empty"@
        }
    }

    /// Checks the threshold and the weight to lie between 0 and 1, the model
    /// name to hold more than whitespace and the database path not to be empty.
    pub fn validate(&self) -> (r: Result<(), Error>)
        ensures
            self.is_valid() <==> r is Ok,
            r matches Err(e) ==> (e matches Error::Config(msg) && msg@ == self.fault_text()),
    {
        match validate_fraction("similarity threshold", self.similarity_threshold) {
            Ok(()) => {},
            Err(e) => {
                return Err(e);
            },
        }
        match validate_fraction("recency weight", self.recency_weight) {
            Ok(()) => {},
            Err(e) => {
                return Err(e);
            },
        }
        if blank(&chars_of(self.embedding_model.as_str())) {
            return Err(Error::Config(String::from_str("Embedding model cannot be empty")));
        }
        if self.database_path.as_str().is_empty() {
            return Err(Error::Config(String::from_str("Database path cannot be empty")));
        }
        Ok(())
    }
}

} // verus!
