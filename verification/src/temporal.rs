//! Recency: the decay configuration and its limits, the recency weight, and
//! the instants that records were created at.
//!
//! Rates, offsets and weights are binary64 bit patterns. The decay value
//! itself is floating-point arithmetic and is computed by the caller.

use vstd::prelude::*;
use vstd::string::*;
use crate::float_bits::float_le;
use crate::float_bits::float_lt;
use crate::float_bits::is_nan;
use crate::float_bits::le;
use crate::float_bits::lt;
use crate::float_bits::order_key;
use crate::float_bits::ONE_BITS;
use crate::float_bits::ZERO_BITS;

verus! {

/// Bit pattern of 1e-3, the largest exponential rate (per second).
pub const EXPONENTIAL_LAMBDA_MAX: u64 = 0x3F50_624D_D2F1_A9FC;

/// Bit pattern of 1e-10, the smallest exponential rate (per second).
pub const EXPONENTIAL_LAMBDA_MIN: u64 = 0x3DDB_7CDF_D9D7_BDBB;

/// Bit pattern of 100, the largest linear rate (per day).
pub const LINEAR_LAMBDA_MAX: u64 = 0x4059_0000_0000_0000;

/// Bit pattern of 1e-6, the smallest linear rate (per day) and the default
/// exponential rate.
pub const LINEAR_LAMBDA_MIN: u64 = 0x3EB0_C6F7_A0B5_ED8D;

/// Bit pattern of 1e-6: about half decayed after eight days.
pub const DEFAULT_LAMBDA: u64 = 0x3EB0_C6F7_A0B5_ED8D;

/// Decay function type.
#[derive(Debug, Clone, Copy, PartialEq, Eq, Structural)]
pub enum DecayFunction {
    /// `exp(-lambda * age_seconds)`.
    Exponential,
    /// `1 - lambda * age_days`, kept within 0 and 1.
    Linear,
}

impl DecayFunction {
    /// All decay functions.
    pub fn all() -> (r: Vec<DecayFunction>)
        ensures
            r@ == seq![DecayFunction::Exponential, DecayFunction::Linear],
    {
        let mut v: Vec<DecayFunction> = Vec::new();
        v.push(DecayFunction::Exponential);
        v.push(DecayFunction::Linear);
        assert(v@ =~= seq![DecayFunction::Exponential, DecayFunction::Linear]);
        v
    }

    /// The smallest rate accepted for this function.
    pub open spec fn lambda_min(self) -> u64 {
        match self {
            DecayFunction::Exponential => EXPONENTIAL_LAMBDA_MIN,
            DecayFunction::Linear => LINEAR_LAMBDA_MIN,
        }
    }

    /// The largest rate accepted for this function.
    pub open spec fn lambda_max(self) -> u64 {
        match self {
            DecayFunction::Exponential => EXPONENTIAL_LAMBDA_MAX,
            DecayFunction::Linear => LINEAR_LAMBDA_MAX,
        }
    }
}

/// Configuration for temporal decay.
#[derive(Debug, Clone, Copy)]
pub struct DecayConfig {
    /// Decay function to use.
    pub function: DecayFunction,
    /// Decay rate, per second for exponential decay and per day for linear decay.
    pub lambda: u64,
    /// Grace period without decay, in days.
    pub offset_days: u64,
}

/// Why a decay configuration is rejected. Each variant carries the rejected value.
#[derive(Debug, Clone, Copy, PartialEq, Eq, Structural)]
pub enum DecayConfigError {
    /// The rate is not a positive number.
    NonPositiveLambda(u64),
    /// The rate is above the largest one for the function.
    LambdaTooLarge(DecayFunction, u64),
    /// The rate is below the smallest one for the function.
    LambdaTooSmall(DecayFunction, u64),
    /// The grace period is negative.
    NegativeOffset(u64),
}

impl DecayConfigError {
    /// The rule that was broken, in words.
    pub open spec fn message_spec(self) -> Seq<char> {
        match self {
            DecayConfigError::NonPositiveLambda(_) => "Invalid lambda (must be positive)"@,
            DecayConfigError::LambdaTooLarge(DecayFunction::Exponential, _) =>
                "Exponential decay lambda is too large (max: 1e-3)"@,
            DecayConfigError::LambdaTooSmall(DecayFunction::Exponential, _) =>
                "Exponential decay lambda is too small (min: 1e-10)"@,
            DecayConfigError::LambdaTooLarge(DecayFunction::Linear, _) =>
                "Linear decay lambda is too large (max: 100.0)"@,
            DecayConfigError::LambdaTooSmall(DecayFunction::Linear, _) =>
                "Linear decay lambda is too small to be useful (min: 1e-6)"@,
            DecayConfigError::NegativeOffset(_) => "Invalid offset_days (must be >= 0)"@,
        }
    }

    /// The rule that was broken, in words.
    pub fn message(&self) -> (r: String)
        ensures
            r@ == self.message_spec(),
    {
        match self {
            DecayConfigError::NonPositiveLambda(_) => String::from_str(
                "Invalid lambda (must be positive)",
            ),
            DecayConfigError::LambdaTooLarge(DecayFunction::Exponential, _) => String::from_str(
                "Exponential decay lambda is too large (max: 1e-3)",
            ),
            DecayConfigError::LambdaTooSmall(DecayFunction::Exponential, _) => String::from_str(
                "Exponential decay lambda is too small (min: 1e-10)",
            ),
            DecayConfigError::LambdaTooLarge(DecayFunction::Linear, _) => String::from_str(
                "Linear decay lambda is too large (max: 100.0)",
            ),
            DecayConfigError::LambdaTooSmall(DecayFunction::Linear, _) => String::from_str(
                "Linear decay lambda is too small to be useful (min: 1e-6)",
            ),
            DecayConfigError::NegativeOffset(_) => String::from_str(
                "Invalid offset_days (must be >= 0)",
            ),
        }
    }
}

impl Default for DecayConfig {
    fn default() -> (r: Self)
        ensures
            r.function == DecayFunction::Exponential,
            r.lambda == DEFAULT_LAMBDA,
            r.offset_days == ZERO_BITS,
    {
        DecayConfig {
            function: DecayFunction::Exponential,
            lambda: DEFAULT_LAMBDA,
            offset_days: ZERO_BITS,
        }
    }
}

impl DecayConfig {
    /// The rate is a positive number within the limits of the function, and
    /// the grace period is not negative.
    pub open spec fn is_valid(&self) -> bool {
        &&& float_le(self.function.lambda_min(), self.lambda)
        &&& float_le(self.lambda, self.function.lambda_max())
        &&& !float_lt(self.offset_days, ZERO_BITS)
    }

    /// The first rule that this configuration breaks, in the order in which
    /// the rules are checked.
    pub open spec fn fault(&self) -> Option<DecayConfigError> {
        if !float_lt(ZERO_BITS, self.lambda) {
            Some(DecayConfigError::NonPositiveLambda(self.lambda))
        } else if float_lt(self.function.lambda_max(), self.lambda) {
            Some(DecayConfigError::LambdaTooLarge(self.function, self.lambda))
        } else if float_lt(self.lambda, self.function.lambda_min()) {
            Some(DecayConfigError::LambdaTooSmall(self.function, self.lambda))
        } else if float_lt(self.offset_days, ZERO_BITS) {
            Some(DecayConfigError::NegativeOffset(self.offset_days))
        } else {
            None
        }
    }

    /// The default configuration, checked.
    pub fn new() -> (r: Result<Self, DecayConfigError>)
        ensures
            r matches Ok(c) && c.function == DecayFunction::Exponential && c.lambda
                == DEFAULT_LAMBDA && c.offset_days == ZERO_BITS && c.is_valid(),
    {
        let config = DecayConfig {
            function: DecayFunction::Exponential,
            lambda: DEFAULT_LAMBDA,
            offset_days: ZERO_BITS,
        };
        proof {
            lemma_default_is_valid();
        }
        match config.validate() {
            Ok(()) => Ok(config),
            Err(e) => Err(e),
        }
    }

    /// Accepts the configuration exactly when it is valid, and otherwise
    /// names the first rule it breaks.
    pub fn validate(&self) -> (r: Result<(), DecayConfigError>)
        ensures
            r is Ok <==> self.is_valid(),
            r matches Err(e) ==> self.fault() == Some(e),
            r is Ok ==> self.fault() is None,
    {
        let (min, max) = match self.function {
            DecayFunction::Exponential => (EXPONENTIAL_LAMBDA_MIN, EXPONENTIAL_LAMBDA_MAX),
            DecayFunction::Linear => (LINEAR_LAMBDA_MIN, LINEAR_LAMBDA_MAX),
        };
        proof {
            lemma_limits_are_positive();
        }
        if !lt(ZERO_BITS, self.lambda) {
            return Err(DecayConfigError::NonPositiveLambda(self.lambda));
        }
        if lt(max, self.lambda) {
            return Err(DecayConfigError::LambdaTooLarge(self.function, self.lambda));
        }
        if lt(self.lambda, min) {
            return Err(DecayConfigError::LambdaTooSmall(self.function, self.lambda));
        }
        if lt(self.offset_days, ZERO_BITS) {
            return Err(DecayConfigError::NegativeOffset(self.offset_days));
        }
        Ok(())
    }
}

/// Zero and the four limits are positive patterns: each orders by its own value.
proof fn lemma_limits_are_positive()
    ensures
        !is_nan(ZERO_BITS) && order_key(ZERO_BITS) == 0,
        !is_nan(EXPONENTIAL_LAMBDA_MIN) && order_key(EXPONENTIAL_LAMBDA_MIN)
            == EXPONENTIAL_LAMBDA_MIN,
        !is_nan(EXPONENTIAL_LAMBDA_MAX) && order_key(EXPONENTIAL_LAMBDA_MAX)
            == EXPONENTIAL_LAMBDA_MAX,
        !is_nan(LINEAR_LAMBDA_MIN) && order_key(LINEAR_LAMBDA_MIN) == LINEAR_LAMBDA_MIN,
        !is_nan(LINEAR_LAMBDA_MAX) && order_key(LINEAR_LAMBDA_MAX) == LINEAR_LAMBDA_MAX,
{
    assert(0x3DDB_7CDF_D9D7_BDBBu64 & 0x7FFF_FFFF_FFFF_FFFFu64 == 0x3DDB_7CDF_D9D7_BDBBu64)
        by (bit_vector);
    assert(0x3DDB_7CDF_D9D7_BDBBu64 & 0x8000_0000_0000_0000u64 == 0) by (bit_vector);
    assert(0x3F50_624D_D2F1_A9FCu64 & 0x7FFF_FFFF_FFFF_FFFFu64 == 0x3F50_624D_D2F1_A9FCu64)
        by (bit_vector);
    assert(0x3F50_624D_D2F1_A9FCu64 & 0x8000_0000_0000_0000u64 == 0) by (bit_vector);
    assert(0x3EB0_C6F7_A0B5_ED8Du64 & 0x7FFF_FFFF_FFFF_FFFFu64 == 0x3EB0_C6F7_A0B5_ED8Du64)
        by (bit_vector);
    assert(0x3EB0_C6F7_A0B5_ED8Du64 & 0x8000_0000_0000_0000u64 == 0) by (bit_vector);
    assert(0x4059_0000_0000_0000u64 & 0x7FFF_FFFF_FFFF_FFFFu64 == 0x4059_0000_0000_0000u64)
        by (bit_vector);
    assert(0x4059_0000_0000_0000u64 & 0x8000_0000_0000_0000u64 == 0) by (bit_vector);
    assert(0u64 & 0x7FFF_FFFF_FFFF_FFFFu64 == 0) by (bit_vector);
    assert(0u64 & 0x8000_0000_0000_0000u64 == 0) by (bit_vector);
}

/// The default configuration is valid.
pub proof fn lemma_default_is_valid()
    ensures
        (DecayConfig {
            function: DecayFunction::Exponential,
            lambda: DEFAULT_LAMBDA,
            offset_days: ZERO_BITS,
        }).is_valid(),
{
    lemma_limits_are_positive();
}

/// Why a recency weight is rejected; carries the rejected value.
#[derive(Debug, Clone, Copy, PartialEq, Eq, Structural)]
pub struct RecencyWeightError {
    pub weight: u64,
}

impl RecencyWeightError {
    /// The rule that was broken, in words.
    pub fn message(&self) -> (r: String)
        ensures
            r@ == "Invalid recency weight (must be between 0.0 and 1.0)"@,
    {
        String::from_str("Invalid recency weight (must be between 0.0 and 1.0)")
    }
}

/// A weight from 0 to 1, both included. NaN is no weight.
pub open spec fn is_valid_weight(weight: u64) -> bool {
    float_le(ZERO_BITS, weight) && float_le(weight, ONE_BITS)
}

/// Accepts a recency weight from 0 to 1; nothing is clamped.
pub fn validate_recency_weight(recency_weight: u64) -> (r: Result<(), RecencyWeightError>)
    ensures
        r is Ok <==> is_valid_weight(recency_weight),
        r matches Err(e) ==> e.weight == recency_weight,
{
    if le(ZERO_BITS, recency_weight) && le(recency_weight, ONE_BITS) {
        Ok(())
    } else {
        Err(RecencyWeightError { weight: recency_weight })
    }
}

/// Recency takes part in a score only under a weight above zero.
pub open spec fn recency_applies(weight: u64) -> bool {
    float_lt(ZERO_BITS, weight)
}

/// Whether scores are to be blended with decay under `recency_weight`.
pub fn uses_recency(recency_weight: u64) -> (r: bool)
    ensures
        r == recency_applies(recency_weight),
{
    lt(ZERO_BITS, recency_weight)
}

/// An instant: whole seconds since 1970-01-01 00:00:00 UTC, leap seconds
/// not counted, and the nanoseconds past them. During a leap second the
/// nanoseconds go on past 999,999,999.
#[derive(Debug, Clone, Copy, PartialEq, Eq, Structural)]
pub struct Timestamp {
    pub secs: i64,
    pub nanos: u32,
}

/// What a timestamp text reads as: the seconds and nanoseconds of the instant
/// it names, or the words that say why it names none.
pub uninterp spec fn parsed_timestamp(text: Seq<char>) -> Result<(i64, u32), Seq<char>>;

/// Reads a timestamp text as an instant in UTC.
///
/// Trusted: the body is chrono's `FromStr` for `DateTime<Utc>`, which accepts
/// a relaxed RFC 3339 form and depends on the text alone. The instant is
/// handed out as `timestamp()` and `timestamp_subsec_nanos()`, from which
/// chrono documents that `from_timestamp` gives the same instant back; a
/// failure is handed out as the text of chrono's `ParseError`. Nothing is
/// claimed about which texts are accepted.
#[verifier::external_body]
pub(crate) fn parse_timestamp(text: &str) -> (r: Result<(i64, u32), String>)
    ensures
        match r {
            Ok(t) => parsed_timestamp(text@) == Ok::<(i64, u32), Seq<char>>(t),
            Err(e) => parsed_timestamp(text@) == Err::<(i64, u32), Seq<char>>(e@),
        },
{
    match text.parse::<chrono::DateTime<chrono::Utc>>() {
        Ok(instant) => Ok((instant.timestamp(), instant.timestamp_subsec_nanos())),
        Err(e) => Err(e.to_string()),
    }
}

} // verus!
