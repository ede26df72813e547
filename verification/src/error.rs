use vstd::prelude::*;

verus! {

/// Error raised while building descriptors, mappings or the batch
/// configuration. Construction rejects malformed input before any request
/// is served; nothing is silently repaired.
#[derive(Debug, PartialEq, Eq)]
pub enum ConfigurationError {
    /// A descriptor key was not set to a literal of the expected kind.
    NotLiteral { key: String, lit_ty: String, name: String },
    /// A required descriptor key was missing.
    NoKey { key: String, name: String },
    /// The `ty` key named no supported data type.
    InvalidDataType { name: String },
    /// The `ord` key named no supported word order.
    InvalidWordOrder { name: String },
    /// A word order the codec does not serve was asked for.
    UnsupportedWordOrder { name: String },
    /// A descriptor's word range runs past the 16-bit address space.
    AddressRangeTooLarge { name: String },
    /// `max_cnt_per_request` was zero or above the protocol ceiling.
    InvalidMaxCount { value: u16 },
    /// The descriptor list was not sorted ascending by address, or two
    /// descriptors' word ranges overlap; `index` points at the second of
    /// the offending pair.
    NotSortedOrOverlapping { index: usize },
}

/// Protocol-level failure of a register operation or of request dispatch.
#[derive(Debug, Clone, Copy, PartialEq, Eq, Structural)]
pub enum Exception {
    /// A read or write addressed a register that was never inserted.
    RegisterNotFound,
    /// Dispatch received a request kind outside the four register
    /// operations.
    UnsupportedFunction,
    /// A decoded word range had the wrong length for its data type.
    WordCountMismatch,
}

/// Builds the error reported when a descriptor key is not set to a literal
/// of the expected kind (`lit_ty`), for the field or struct called `name`.
pub fn panic_not_literal(key: &str, lit_ty: &str, name: &str) -> (e: ConfigurationError)
    ensures
        ({
            &&& e matches ConfigurationError::NotLiteral { key: k, lit_ty: l, name: n }
            &&& k@ == key@
            &&& l@ == lit_ty@
            &&& n@ == name@
        }),
{
    ConfigurationError::NotLiteral {
        key: key.to_owned(),
        lit_ty: lit_ty.to_owned(),
        name: name.to_owned(),
    }
}

/// Builds the error reported when the required descriptor key `key` is
/// missing for the field or struct called `name`.
pub fn panic_no_key(key: &str, name: &str) -> (e: ConfigurationError)
    ensures
        ({
            &&& e matches ConfigurationError::NoKey { key: k, name: n }
            &&& k@ == key@
            &&& n@ == name@
        }),
{
    ConfigurationError::NoKey { key: key.to_owned(), name: name.to_owned() }
}

} // verus!
