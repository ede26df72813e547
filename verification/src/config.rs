use vstd::prelude::*;

use crate::entry::Quantity;
use crate::error::ConfigurationError;

verus! {

/// The Modbus protocol ceiling on registers read in a single request.
pub const MAX_CNT_PER_REQUEST_CEILING: u16 = 123;

/// Policy for grouping mapped fields into batched read requests.
#[derive(Debug, Clone, Copy, PartialEq, Eq, Structural)]
pub struct Config {
    /// Largest number of registers one read request may span.
    pub max_cnt_per_request: Quantity,
    /// Whether one request may span unmapped registers lying between
    /// mapped fields: fewer requests, more data read.
    pub allow_register_gaps: bool,
}

impl Config {
    /// The request ceiling is positive and within the protocol limit.
    pub open spec fn wf(self) -> bool {
        1 <= self.max_cnt_per_request <= MAX_CNT_PER_REQUEST_CEILING
    }

    /// Builds a validated configuration. An absent `max_cnt_per_request`
    /// takes the protocol ceiling of 123; an absent `allow_register_gaps`
    /// defaults to `false`. A ceiling of zero or above the protocol limit
    /// is a configuration error.
    pub fn new(max_cnt_per_request: Option<Quantity>, allow_register_gaps: Option<bool>) -> (r:
        Result<Config, ConfigurationError>)
        ensures
            ({
                let m = match max_cnt_per_request {
                    Some(v) => v,
                    None => MAX_CNT_PER_REQUEST_CEILING,
                };
                let g = match allow_register_gaps {
                    Some(v) => v,
                    None => false,
                };
                if 1 <= m <= MAX_CNT_PER_REQUEST_CEILING {
                    r == Ok::<Config, ConfigurationError>(
                        Config { max_cnt_per_request: m, allow_register_gaps: g },
                    )
                } else {
                    r == Err::<Config, ConfigurationError>(
                        ConfigurationError::InvalidMaxCount { value: m },
                    )
                }
            }),
    {
        let m: u16 = match max_cnt_per_request {
            Some(v) => v,
            None => MAX_CNT_PER_REQUEST_CEILING,
        };
        let g: bool = match allow_register_gaps {
            Some(v) => v,
            None => false,
        };
        if 1 <= m && m <= MAX_CNT_PER_REQUEST_CEILING {
            Ok(Config { max_cnt_per_request: m, allow_register_gaps: g })
        } else {
            Err(ConfigurationError::InvalidMaxCount { value: m })
        }
    }
}

} // verus!
