use vstd::prelude::*;

verus! {

/// 16-bit value stored in a Modbus register.
pub type Word = u16;

/// Error returned when a word sequence's length does not match the decoded
/// type's word size.
#[derive(Debug, Clone, Copy, PartialEq, Eq, Structural)]
pub struct WordsCountError {}

/// Decode a value from big-endian-ordered `Word`s.
///
/// Big-endian layout: the value's big-endian byte representation is read
/// two bytes at a time, each pair forming one big-endian 16-bit word, the
/// first pair giving the first word.
pub trait Decode: Sized {
    /// Number of 16-bit words the type occupies.
    spec fn spec_word_size() -> nat;

    /// The value read from exactly `spec_word_size()` big-endian words.
    spec fn spec_from_be_words(words: Seq<Word>) -> Self;

    /// Decode from big-endian words; a sequence of any other length than
    /// `spec_word_size()` is refused.
    fn from_be_words(words: &[Word]) -> (r: Result<Self, WordsCountError>)
        ensures
            words@.len() == Self::spec_word_size() ==> r == Ok::<Self, WordsCountError>(
                Self::spec_from_be_words(words@),
            ),
            words@.len() != Self::spec_word_size() ==> r is Err,
    ;
}

/// Encode a value into big-endian-ordered `Word`s.
///
/// The inverse of [`Decode`]: the value's big-endian byte representation,
/// grouped into consecutive big-endian 16-bit words.
pub trait Encode: Sized {
    /// The big-endian word image of the value.
    spec fn spec_to_be_words(self) -> Seq<Word>;

    fn to_be_words(self) -> (r: Vec<Word>)
        ensures
            r@ == self.spec_to_be_words(),
    ;
}

impl Decode for u16 {
    open spec fn spec_word_size() -> nat {
        1
    }

    open spec fn spec_from_be_words(words: Seq<Word>) -> u16 {
        words[0]
    }

    fn from_be_words(words: &[Word]) -> (r: Result<u16, WordsCountError>) {
        if words.len() == 1 {
            Ok(words[0])
        } else {
            Err(WordsCountError {})
        }
    }
}

impl Encode for u16 {
    open spec fn spec_to_be_words(self) -> Seq<Word> {
        seq![self]
    }

    fn to_be_words(self) -> (r: Vec<Word>) {
        let r: Vec<Word> = vec![self];
        proof {
            assert(r@ =~= self.spec_to_be_words());
        }
        r
    }
}

impl Decode for u32 {
    open spec fn spec_word_size() -> nat {
        2
    }

    open spec fn spec_from_be_words(words: Seq<Word>) -> u32 {
        ((words[0] as u32) << 16) | (words[1] as u32)
    }

    fn from_be_words(words: &[Word]) -> (r: Result<u32, WordsCountError>) {
        if words.len() == 2 {
            Ok(((words[0] as u32) << 16) | (words[1] as u32))
        } else {
            Err(WordsCountError {})
        }
    }
}

impl Encode for u32 {
    open spec fn spec_to_be_words(self) -> Seq<Word> {
        seq![(self >> 16) as u16, self as u16]
    }

    fn to_be_words(self) -> (r: Vec<Word>) {
        let hi: u16 = (self >> 16) as u16;
        let lo: u16 = #[verifier::truncate] (self as u16);
        let r: Vec<Word> = vec![hi, lo];
        proof {
            assert(r@ =~= self.spec_to_be_words());
        }
        r
    }
}

impl Decode for u64 {
    open spec fn spec_word_size() -> nat {
        4
    }

    open spec fn spec_from_be_words(words: Seq<Word>) -> u64 {
        ((words[0] as u64) << 48) | ((words[1] as u64) << 32) | ((words[2] as u64) << 16) | (
        words[3] as u64)
    }

    fn from_be_words(words: &[Word]) -> (r: Result<u64, WordsCountError>) {
        if words.len() == 4 {
            Ok(
                ((words[0] as u64) << 48) | ((words[1] as u64) << 32) | ((words[2] as u64) << 16)
                    | (words[3] as u64),
            )
        } else {
            Err(WordsCountError {})
        }
    }
}

impl Encode for u64 {
    open spec fn spec_to_be_words(self) -> Seq<Word> {
        seq![
            (self >> 48) as u16,
            ((self >> 32) & 0xffff) as u16,
            ((self >> 16) & 0xffff) as u16,
            (self & 0xffff) as u16,
        ]
    }

    fn to_be_words(self) -> (r: Vec<Word>) {
        let w0: u16 = (self >> 48) as u16;
        let w1: u16 = ((self >> 32) & 0xffff) as u16;
        let w2: u16 = ((self >> 16) & 0xffff) as u16;
        let w3: u16 = (self & 0xffff) as u16;
        let r: Vec<Word> = vec![w0, w1, w2, w3];
        proof {
            assert(r@ =~= self.spec_to_be_words());
        }
        r
    }
}

impl Decode for i16 {
    open spec fn spec_word_size() -> nat {
        1
    }

    open spec fn spec_from_be_words(words: Seq<Word>) -> i16 {
        words[0] as i16
    }

    fn from_be_words(words: &[Word]) -> (r: Result<i16, WordsCountError>) {
        if words.len() == 1 {
            Ok(#[verifier::truncate] (words[0] as i16))
        } else {
            Err(WordsCountError {})
        }
    }
}

impl Encode for i16 {
    open spec fn spec_to_be_words(self) -> Seq<Word> {
        seq![self as u16]
    }

    fn to_be_words(self) -> (r: Vec<Word>) {
        let w: u16 = #[verifier::truncate] (self as u16);
        let r: Vec<Word> = vec![w];
        proof {
            assert(r@ =~= self.spec_to_be_words());
        }
        r
    }
}

impl Decode for i32 {
    open spec fn spec_word_size() -> nat {
        2
    }

    open spec fn spec_from_be_words(words: Seq<Word>) -> i32 {
        (((words[0] as u32) << 16) | (words[1] as u32)) as i32
    }

    fn from_be_words(words: &[Word]) -> (r: Result<i32, WordsCountError>) {
        if words.len() == 2 {
            let bits: u32 = ((words[0] as u32) << 16) | (words[1] as u32);
            Ok(#[verifier::truncate] (bits as i32))
        } else {
            Err(WordsCountError {})
        }
    }
}

impl Encode for i32 {
    open spec fn spec_to_be_words(self) -> Seq<Word> {
        seq![((self as u32) >> 16) as u16, (self as u32) as u16]
    }

    fn to_be_words(self) -> (r: Vec<Word>) {
        let bits: u32 = #[verifier::truncate] (self as u32);
        let hi: u16 = (bits >> 16) as u16;
        let lo: u16 = #[verifier::truncate] (bits as u16);
        let r: Vec<Word> = vec![hi, lo];
        proof {
            assert(r@ =~= self.spec_to_be_words());
        }
        r
    }
}

impl Decode for i64 {
    open spec fn spec_word_size() -> nat {
        4
    }

    open spec fn spec_from_be_words(words: Seq<Word>) -> i64 {
        (((words[0] as u64) << 48) | ((words[1] as u64) << 32) | ((words[2] as u64) << 16) | (
        words[3] as u64)) as i64
    }

    fn from_be_words(words: &[Word]) -> (r: Result<i64, WordsCountError>) {
        if words.len() == 4 {
            let bits: u64 = ((words[0] as u64) << 48) | ((words[1] as u64) << 32) | ((
            words[2] as u64) << 16) | (words[3] as u64);
            Ok(#[verifier::truncate] (bits as i64))
        } else {
            Err(WordsCountError {})
        }
    }
}

impl Encode for i64 {
    open spec fn spec_to_be_words(self) -> Seq<Word> {
        seq![
            ((self as u64) >> 48) as u16,
            (((self as u64) >> 32) & 0xffff) as u16,
            (((self as u64) >> 16) & 0xffff) as u16,
            ((self as u64) & 0xffff) as u16,
        ]
    }

    fn to_be_words(self) -> (r: Vec<Word>) {
        let bits: u64 = #[verifier::truncate] (self as u64);
        let w0: u16 = (bits >> 48) as u16;
        let w1: u16 = ((bits >> 32) & 0xffff) as u16;
        let w2: u16 = ((bits >> 16) & 0xffff) as u16;
        let w3: u16 = (bits & 0xffff) as u16;
        let r: Vec<Word> = vec![w0, w1, w2, w3];
        proof {
            assert(r@ =~= self.spec_to_be_words());
        }
        r
    }
}

/// Law: encoding the decoding of one word gives the word back.
pub proof fn lemma_words_round_trip_u16(w: Seq<Word>)
    requires
        w.len() == 1,
    ensures
        <u16 as Decode>::spec_from_be_words(w).spec_to_be_words() == w,
{
    assert(<u16 as Decode>::spec_from_be_words(w).spec_to_be_words() =~= w);
}

/// Law: encoding the `u32` decoding of two words gives the words back.
pub proof fn lemma_words_round_trip_u32(w: Seq<Word>)
    requires
        w.len() == 2,
    ensures
        <u32 as Decode>::spec_from_be_words(w).spec_to_be_words() == w,
{
    let x0 = w[0];
    let x1 = w[1];
    assert((((((x0 as u32) << 16) | (x1 as u32)) >> 16) as u16) == x0 && (((((x0 as u32) << 16) | (
    x1 as u32))) as u16) == x1) by (bit_vector);
    assert(<u32 as Decode>::spec_from_be_words(w).spec_to_be_words() =~= w);
}

/// Law: encoding the `u64` decoding of four words gives the words back.
pub proof fn lemma_words_round_trip_u64(w: Seq<Word>)
    requires
        w.len() == 4,
    ensures
        <u64 as Decode>::spec_from_be_words(w).spec_to_be_words() == w,
{
    let x0 = w[0];
    let x1 = w[1];
    let x2 = w[2];
    let x3 = w[3];
    let v = ((x0 as u64) << 48) | ((x1 as u64) << 32) | ((x2 as u64) << 16) | (x3 as u64);
    assert({
        let v = ((x0 as u64) << 48) | ((x1 as u64) << 32) | ((x2 as u64) << 16) | (x3 as u64);
        &&& ((v >> 48) as u16) == x0
        &&& (((v >> 32) & 0xffff) as u16) == x1
        &&& (((v >> 16) & 0xffff) as u16) == x2
        &&& ((v & 0xffff) as u16) == x3
    }) by (bit_vector);
    assert(<u64 as Decode>::spec_from_be_words(w).spec_to_be_words() =~= w);
}

/// Law: encoding the `i16` decoding of one word gives the word back.
pub proof fn lemma_words_round_trip_i16(w: Seq<Word>)
    requires
        w.len() == 1,
    ensures
        <i16 as Decode>::spec_from_be_words(w).spec_to_be_words() == w,
{
    let x0 = w[0];
    assert(((x0 as i16) as u16) == x0) by (bit_vector);
    assert(<i16 as Decode>::spec_from_be_words(w).spec_to_be_words() =~= w);
}

/// Law: encoding the `i32` decoding of two words gives the words back.
pub proof fn lemma_words_round_trip_i32(w: Seq<Word>)
    requires
        w.len() == 2,
    ensures
        <i32 as Decode>::spec_from_be_words(w).spec_to_be_words() == w,
{
    let x0 = w[0];
    let x1 = w[1];
    assert({
        let b = ((((x0 as u32) << 16) | (x1 as u32)) as i32) as u32;
        &&& ((b >> 16) as u16) == x0
        &&& (b as u16) == x1
    }) by (bit_vector);
    assert(<i32 as Decode>::spec_from_be_words(w).spec_to_be_words() =~= w);
}

/// Law: encoding the `i64` decoding of four words gives the words back.
pub proof fn lemma_words_round_trip_i64(w: Seq<Word>)
    requires
        w.len() == 4,
    ensures
        <i64 as Decode>::spec_from_be_words(w).spec_to_be_words() == w,
{
    let x0 = w[0];
    let x1 = w[1];
    let x2 = w[2];
    let x3 = w[3];
    assert({
        let b = ((((x0 as u64) << 48) | ((x1 as u64) << 32) | ((x2 as u64) << 16) | (x3 as u64))
            as i64) as u64;
        &&& ((b >> 48) as u16) == x0
        &&& (((b >> 32) & 0xffff) as u16) == x1
        &&& (((b >> 16) & 0xffff) as u16) == x2
        &&& ((b & 0xffff) as u16) == x3
    }) by (bit_vector);
    assert(<i64 as Decode>::spec_from_be_words(w).spec_to_be_words() =~= w);
}

/// Law: decoding the encoding of a `u16` gives the value back.
pub proof fn lemma_round_trip_u16(x: u16)
    ensures
        <u16 as Decode>::spec_from_be_words(x.spec_to_be_words()) == x,
{
}

/// Law: decoding the encoding of a `u32` gives the value back.
pub proof fn lemma_round_trip_u32(x: u32)
    ensures
        <u32 as Decode>::spec_from_be_words(x.spec_to_be_words()) == x,
{
    assert(((((x >> 16) as u16) as u32) << 16) | ((x as u16) as u32) == x) by (bit_vector);
}

/// Law: decoding the encoding of a `u64` gives the value back.
pub proof fn lemma_round_trip_u64(x: u64)
    ensures
        <u64 as Decode>::spec_from_be_words(x.spec_to_be_words()) == x,
{
    assert(((((x >> 48) as u16) as u64) << 48) | (((((x >> 32) & 0xffff) as u16) as u64) << 32) | ((
    (((x >> 16) & 0xffff) as u16) as u64) << 16) | (((x & 0xffff) as u16) as u64) == x)
        by (bit_vector);
}

/// Law: decoding the encoding of an `i16` gives the value back.
pub proof fn lemma_round_trip_i16(x: i16)
    ensures
        <i16 as Decode>::spec_from_be_words(x.spec_to_be_words()) == x,
{
    assert(((x as u16) as i16) == x) by (bit_vector);
}

/// Law: decoding the encoding of an `i32` gives the value back.
pub proof fn lemma_round_trip_i32(x: i32)
    ensures
        <i32 as Decode>::spec_from_be_words(x.spec_to_be_words()) == x,
{
    assert(((((((x as u32) >> 16) as u16) as u32) << 16) | (((x as u32) as u16) as u32)) as i32
        == x) by (bit_vector);
}

/// Law: decoding the encoding of an `i64` gives the value back.
pub proof fn lemma_round_trip_i64(x: i64)
    ensures
        <i64 as Decode>::spec_from_be_words(x.spec_to_be_words()) == x,
{
    assert((((((x as u64) >> 48) as u16) as u64) << 48) | ((((((x as u64) >> 32) & 0xffff) as u16)
        as u64) << 32) | ((((((x as u64) >> 16) & 0xffff) as u16) as u64) << 16) | ((((x as u64)
        & 0xffff) as u16) as u64) == (x as u64)) by (bit_vector);
    assert(((x as u64) as i64) == x) by (bit_vector);
}

} // verus!
