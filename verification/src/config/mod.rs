//! Configuration values, how a configuration file overrides the defaults,
//! and the rules the values must meet.

pub mod env_parser;
pub mod validation;

use vstd::prelude::*;
use vstd::string::*;
use crate::errors::Error;
use self::validation::ConfigValidator;

verus! {

/// Bit pattern of 0.85, the default similarity threshold.
pub const DEFAULT_SIMILARITY_THRESHOLD: u64 = 0x3FEB_3333_3333_3333;

/// Bit pattern of 0.3, the default recency weight.
pub const DEFAULT_RECENCY_WEIGHT: u64 = 0x3FD3_3333_3333_3333;

/// Configuration values with priority: defaults, then the configuration
/// file, then the environment. Paths are held as text, the threshold and the
/// weight as binary64 bit patterns.
#[derive(Debug)]
pub struct Config {
    /// Path to the database file.
    pub database_path: String,
    /// Identifier of the embedding model.
    pub embedding_model: String,
    /// Directory in which models are cached.
    pub model_cache: String,
    /// Similarity at or above which a stored memory conflicts with an addition.
    pub similarity_threshold: u64,
    /// Recency weight for search results.
    pub recency_weight: u64,
}

/// The values of a configuration file. A text that the file leaves out is
/// empty; a number that it leaves out holds the default.
#[derive(Debug)]
pub struct ConfigFile {
    pub database_path: String,
    pub embedding_model: String,
    pub model_cache: String,
    pub similarity_threshold: u64,
    pub recency_weight: u64,
}

/// `chosen` is `given` where that is not empty, and else `kept`.
pub open spec fn overrides(chosen: Seq<char>, given: Seq<char>, kept: Seq<char>) -> bool {
    chosen == if given.len() > 0 {
        given
    } else {
        kept
    }
}

impl Config {
    /// The default configuration for the given database path and model cache.
    pub fn with_paths(database_path: &str, model_cache: &str) -> (r: Self)
        ensures
            r.database_path@ == database_path@,
            r.model_cache@ == model_cache@,
            r.embedding_model@ == "BAAI/bge-small-en-v1.5"@,
            r.similarity_threshold == DEFAULT_SIMILARITY_THRESHOLD,
            r.recency_weight == DEFAULT_RECENCY_WEIGHT,
    {
        Config {
            database_path: String::from_str(database_path),
            embedding_model: String::from_str("BAAI/bge-small-en-v1.5"),
            model_cache: String::from_str(model_cache),
            similarity_threshold: DEFAULT_SIMILARITY_THRESHOLD,
            recency_weight: DEFAULT_RECENCY_WEIGHT,
        }
    }

    /// Takes over the values of a configuration file: every text that the
    /// file gives, and both numbers.
    pub fn merge_from_file(&mut self, file: ConfigFile)
        ensures
            overrides(final(self).database_path@, file.database_path@, old(self).database_path@),
            overrides(
                final(self).embedding_model@,
                file.embedding_model@,
                old(self).embedding_model@,
            ),
            overrides(final(self).model_cache@, file.model_cache@, old(self).model_cache@),
            final(self).similarity_threshold == file.similarity_threshold,
            final(self).recency_weight == file.recency_weight,
    {
        if !file.database_path.as_str().is_empty() {
            self.database_path = file.database_path;
        }
        if !file.embedding_model.as_str().is_empty() {
            self.embedding_model = file.embedding_model;
        }
        if !file.model_cache.as_str().is_empty() {
            self.model_cache = file.model_cache;
        }
        self.similarity_threshold = file.similarity_threshold;
        self.recency_weight = file.recency_weight;
    }

    /// The values that are validated.
    pub open spec fn validated(&self) -> ConfigValidator {
        ConfigValidator {
            database_path: self.database_path,
            embedding_model: self.embedding_model,
            similarity_threshold: self.similarity_threshold,
            recency_weight: self.recency_weight,
        }
    }

    /// Validates the configuration: see `ConfigValidator::validate`.
    pub fn validate(&self) -> (r: Result<(), Error>)
        ensures
            self.validated().is_valid() <==> r is Ok,
            r matches Err(e) ==> (e matches Error::Config(msg) && msg@
                == self.validated().fault_text()),
    {
        let validator = ConfigValidator {
            database_path: self.database_path.clone(),
            embedding_model: self.embedding_model.clone(),
            similarity_threshold: self.similarity_threshold,
            recency_weight: self.recency_weight,
        };
        validator.validate()
    }
}

} // verus!
