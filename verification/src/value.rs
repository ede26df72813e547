use vstd::prelude::*;

use crate::codec::{Decode, Encode, Word, WordsCountError};
use crate::entry::DataType;
use crate::mapping::{lemma_addr_monotone, lemma_end_monotone, spec_span, Mapping};

verus! {

/// A typed raw register value: what moves between an application field
/// and the register words that store it. Floating-point values are
/// carried as their IEEE-754 bit patterns; the application converts at
/// the boundary, where the scale factor is applied too.
#[derive(Debug, PartialEq, Eq)]
pub enum Value {
    U16(u16),
    U32(u32),
    U64(u64),
    I16(i16),
    I32(i32),
    I64(i64),
    /// IEEE-754 single-precision bit pattern.
    F32(u32),
    /// IEEE-754 double-precision bit pattern.
    F64(u64),
    /// Opaque words moved without numeric interpretation.
    Raw(Vec<Word>),
}

impl Value {
    /// The value inhabits the data type: same variant, and for `Raw` the
    /// declared number of words.
    pub open spec fn matches_type(self, ty: DataType) -> bool {
        match (self, ty) {
            (Value::U16(_), DataType::U16) => true,
            (Value::U32(_), DataType::U32) => true,
            (Value::U64(_), DataType::U64) => true,
            (Value::I16(_), DataType::I16) => true,
            (Value::I32(_), DataType::I32) => true,
            (Value::I64(_), DataType::I64) => true,
            (Value::F32(_), DataType::F32) => true,
            (Value::F64(_), DataType::F64) => true,
            (Value::Raw(w), DataType::Raw(n)) => w@.len() == n,
            _ => false,
        }
    }

    /// The big-endian word image of the value; `Raw` words pass through
    /// unchanged.
    pub open spec fn spec_to_be_words(self) -> Seq<Word> {
        match self {
            Value::U16(v) => v.spec_to_be_words(),
            Value::U32(v) => v.spec_to_be_words(),
            Value::U64(v) => v.spec_to_be_words(),
            Value::I16(v) => v.spec_to_be_words(),
            Value::I32(v) => v.spec_to_be_words(),
            Value::I64(v) => v.spec_to_be_words(),
            Value::F32(b) => b.spec_to_be_words(),
            Value::F64(b) => b.spec_to_be_words(),
            Value::Raw(w) => w@,
        }
    }

    /// Encode into big-endian words.
    pub fn encode_be(self) -> (r: Vec<Word>)
        ensures
            r@ == self.spec_to_be_words(),
    {
        match self {
            Value::U16(v) => v.to_be_words(),
            Value::U32(v) => v.to_be_words(),
            Value::U64(v) => v.to_be_words(),
            Value::I16(v) => v.to_be_words(),
            Value::I32(v) => v.to_be_words(),
            Value::I64(v) => v.to_be_words(),
            Value::F32(b) => b.to_be_words(),
            Value::F64(b) => b.to_be_words(),
            Value::Raw(w) => w,
        }
    }

    /// Decode a word sequence as a value of the given data type. Exactly
    /// the type's word size is accepted; any other length fails. The
    /// result is the unique value of that type whose big-endian word
    /// image is the given sequence.
    pub fn decode_be(ty: DataType, words: &[Word]) -> (r: Result<Value, WordsCountError>)
        ensures
            words@.len() == ty.spec_word_size() ==> ({
                &&& r matches Ok(v)
                &&& v.matches_type(ty)
                &&& v.spec_to_be_words() == words@
            }),
            words@.len() != ty.spec_word_size() ==> r is Err,
    {
        match ty {
            DataType::U16 => match u16::from_be_words(words) {
                Ok(v) => {
                    proof {
                        crate::codec::lemma_words_round_trip_u16(words@);
                    }
                    Ok(Value::U16(v))
                },
                Err(e) => Err(e),
            },
            DataType::U32 => match u32::from_be_words(words) {
                Ok(v) => {
                    proof {
                        crate::codec::lemma_words_round_trip_u32(words@);
                    }
                    Ok(Value::U32(v))
                },
                Err(e) => Err(e),
            },
            DataType::U64 => match u64::from_be_words(words) {
                Ok(v) => {
                    proof {
                        crate::codec::lemma_words_round_trip_u64(words@);
                    }
                    Ok(Value::U64(v))
                },
                Err(e) => Err(e),
            },
            DataType::I16 => match i16::from_be_words(words) {
                Ok(v) => {
                    proof {
                        crate::codec::lemma_words_round_trip_i16(words@);
                    }
                    Ok(Value::I16(v))
                },
                Err(e) => Err(e),
            },
            DataType::I32 => match i32::from_be_words(words) {
                Ok(v) => {
                    proof {
                        crate::codec::lemma_words_round_trip_i32(words@);
                    }
                    Ok(Value::I32(v))
                },
                Err(e) => Err(e),
            },
            DataType::I64 => match i64::from_be_words(words) {
                Ok(v) => {
                    proof {
                        crate::codec::lemma_words_round_trip_i64(words@);
                    }
                    Ok(Value::I64(v))
                },
                Err(e) => Err(e),
            },
            DataType::F32 => match u32::from_be_words(words) {
                Ok(b) => {
                    proof {
                        crate::codec::lemma_words_round_trip_u32(words@);
                    }
                    Ok(Value::F32(b))
                },
                Err(e) => Err(e),
            },
            DataType::F64 => match u64::from_be_words(words) {
                Ok(b) => {
                    proof {
                        crate::codec::lemma_words_round_trip_u64(words@);
                    }
                    Ok(Value::F64(b))
                },
                Err(e) => Err(e),
            },
            DataType::Raw(n) => {
                if words.len() == n as usize {
                    Ok(Value::Raw(vstd::slice::slice_to_vec(words)))
                } else {
                    Err(WordsCountError {})
                }
            },
        }
    }
}

impl Clone for Value {
    /// A clone carries the same words: numeric variants keep their value,
    /// a `Raw` clone holds an equal word sequence.
    fn clone(&self) -> (r: Value)
        ensures
            value_eq(r, *self),
            r.spec_to_be_words() == self.spec_to_be_words(),
            forall|ty: DataType| r.matches_type(ty) <==> self.matches_type(ty),
    {
        match self {
            Value::U16(v) => Value::U16(*v),
            Value::U32(v) => Value::U32(*v),
            Value::U64(v) => Value::U64(*v),
            Value::I16(v) => Value::I16(*v),
            Value::I32(v) => Value::I32(*v),
            Value::I64(v) => Value::I64(*v),
            Value::F32(b) => Value::F32(*b),
            Value::F64(b) => Value::F64(*b),
            Value::Raw(w) => Value::Raw(vstd::slice::slice_to_vec(w.as_slice())),
        }
    }
}

/// Equality on values up to `Raw` contents: numeric variants compare as
/// values, `Raw` variants compare their word sequences.
pub open spec fn value_eq(v1: Value, v2: Value) -> bool {
    match (v1, v2) {
        (Value::Raw(a), Value::Raw(b)) => a@ == b@,
        _ => v1 == v2,
    }
}

/// Law: the big-endian word image pins the value. Two values of one data
/// type with the same word image are the same value, so decoding is the
/// exact inverse of encoding: for every value `v` of type `ty`, the
/// decode of `v.spec_to_be_words()` can only be `v` itself.
pub proof fn lemma_value_round_trip(ty: DataType, v1: Value, v2: Value)
    requires
        v1.matches_type(ty),
        v2.matches_type(ty),
        v1.spec_to_be_words() == v2.spec_to_be_words(),
    ensures
        value_eq(v1, v2),
{
    match (v1, v2) {
        (Value::U16(a), Value::U16(b)) => {
            crate::codec::lemma_round_trip_u16(a);
            crate::codec::lemma_round_trip_u16(b);
        },
        (Value::U32(a), Value::U32(b)) => {
            crate::codec::lemma_round_trip_u32(a);
            crate::codec::lemma_round_trip_u32(b);
        },
        (Value::U64(a), Value::U64(b)) => {
            crate::codec::lemma_round_trip_u64(a);
            crate::codec::lemma_round_trip_u64(b);
        },
        (Value::I16(a), Value::I16(b)) => {
            crate::codec::lemma_round_trip_i16(a);
            crate::codec::lemma_round_trip_i16(b);
        },
        (Value::I32(a), Value::I32(b)) => {
            crate::codec::lemma_round_trip_i32(a);
            crate::codec::lemma_round_trip_i32(b);
        },
        (Value::I64(a), Value::I64(b)) => {
            crate::codec::lemma_round_trip_i64(a);
            crate::codec::lemma_round_trip_i64(b);
        },
        (Value::F32(a), Value::F32(b)) => {
            crate::codec::lemma_round_trip_u32(a);
            crate::codec::lemma_round_trip_u32(b);
        },
        (Value::F64(a), Value::F64(b)) => {
            crate::codec::lemma_round_trip_u64(a);
            crate::codec::lemma_round_trip_u64(b);
        },
        _ => {},
    }
}

/// Law: a value of a data type occupies exactly the type's word size.
pub proof fn lemma_matching_value_word_size(v: Value, ty: DataType)
    requires
        v.matches_type(ty),
    ensures
        v.spec_to_be_words().len() == ty.spec_word_size(),
{
}

/// Decodes the words returned by one batched block read: each entry of
/// the block takes its value from its own word range within the block's
/// span, offset from the block's first address. Exactly the block's span
/// is accepted; any other length fails.
pub fn decode_block_values(block: &Mapping, words: &[Word]) -> (r: Result<
    Vec<Value>,
    WordsCountError,
>)
    requires
        block.wf(),
    ensures
        words@.len() == spec_span(block.0@) ==> ({
            &&& r matches Ok(vs)
            &&& vs@.len() == block.0@.len()
            &&& forall|i: int|
                0 <= i < vs@.len() ==> {
                    let e = block.0@[i];
                    let off = e.addr - block.0@[0].addr;
                    &&& (#[trigger] vs@[i]).matches_type(e.ty)
                    &&& vs@[i].spec_to_be_words() == words@.subrange(
                        off,
                        off + e.ty.spec_word_size(),
                    )
                }
        }),
        words@.len() != spec_span(block.0@) ==> r is Err,
{
    let n = block.0.len();
    if n == 0 {
        if words.len() == 0 {
            return Ok(Vec::new());
        } else {
            return Err(WordsCountError {});
        }
    }
    let first_addr: u16 = block.0[0].addr;
    proof {
        lemma_addr_monotone(block.0@, 0, n - 1);
        assert(block.0@[n - 1].wf());
    }
    let expected: usize = block.0[n - 1].addr as usize + block.0[n - 1].ty.word_size() as usize
        - first_addr as usize;
    if words.len() != expected {
        return Err(WordsCountError {});
    }
    let mut out: Vec<Value> = Vec::new();
    let mut i: usize = 0;
    while i < n
        invariant
            n == block.0@.len(),
            n > 0,
            block.wf(),
            first_addr == block.0@[0].addr,
            words@.len() == spec_span(block.0@),
            i <= n,
            out@.len() == i,
            forall|k: int|
                0 <= k < i ==> {
                    let e = block.0@[k];
                    let off = e.addr - block.0@[0].addr;
                    &&& (#[trigger] out@[k]).matches_type(e.ty)
                    &&& out@[k].spec_to_be_words() == words@.subrange(
                        off,
                        off + e.ty.spec_word_size(),
                    )
                },
        decreases n - i,
    {
        let e_addr: u16 = block.0[i].addr;
        let e_ty: DataType = block.0[i].ty;
        proof {
            lemma_addr_monotone(block.0@, 0, i as int);
            lemma_end_monotone(block.0@, i as int, n - 1);
            assert(block.0@[i as int].wf());
        }
        let offset: usize = (e_addr - first_addr) as usize;
        let cnt: usize = e_ty.word_size() as usize;
        let sub = vstd::slice::slice_subrange(words, offset, offset + cnt);
        match Value::decode_be(e_ty, sub) {
            Ok(v) => {
                out.push(v);
            },
            Err(err) => {
                return Err(err);
            },
        }
        i += 1;
    }
    Ok(out)
}

} // verus!
