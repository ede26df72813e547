use vstd::prelude::*;

use crate::error::ConfigurationError;

verus! {

/// Modbus register address.
pub type Address = u16;

/// Number of 16-bit registers.
pub type Quantity = u16;

/// IEEE-754 double-precision bit pattern of a field's scale factor.
///
/// The engine never computes with the scale factor: it is carried through
/// the mapping opaquely, and the application applies it when it converts
/// between raw register values and physical quantities.
pub type ScaleFactorBits = u64;

/// Modbus data type of one mapped field; each variant occupies a fixed
/// number of 16-bit registers.
#[derive(Debug, Clone, Copy, PartialEq, Eq, Structural)]
pub enum DataType {
    U16,
    U32,
    U64,
    I16,
    I32,
    I64,
    F32,
    F64,
    Raw(Quantity),
}

/// Order in which the words of a multi-register value are arranged. The
/// codec serves big-endian only; a little-endian descriptor is rejected
/// when it is built, never half-served.
#[derive(Debug, Clone, Copy, PartialEq, Eq, Structural)]
pub enum WordOrder {
    BigEndian,
    LittleEndian,
}

impl DataType {
    /// Register count of each variant: one word for the 16-bit types, two
    /// for the 32-bit types, four for the 64-bit types, and the declared
    /// size for `Raw`.
    pub open spec fn spec_word_size(self) -> Quantity {
        match self {
            DataType::U16 => 1,
            DataType::U32 => 2,
            DataType::U64 => 4,
            DataType::I16 => 1,
            DataType::I32 => 2,
            DataType::I64 => 4,
            DataType::F32 => 2,
            DataType::F64 => 4,
            DataType::Raw(size) => size,
        }
    }

    /// Number of 16-bit registers a value of this type occupies.
    pub fn word_size(&self) -> (r: Quantity)
        ensures
            r == self.spec_word_size(),
    {
        match self {
            DataType::U16 => 1,
            DataType::U32 => 2,
            DataType::U64 => 4,
            DataType::I16 => 1,
            DataType::I32 => 2,
            DataType::I64 => 4,
            DataType::F32 => 2,
            DataType::F64 => 4,
            DataType::Raw(size) => *size,
        }
    }

    /// The data type each supported spelling stands for.
    pub open spec fn spec_parse(s: Seq<char>) -> Option<DataType> {
        if s == "u16"@ {
            Some(DataType::U16)
        } else if s == "u32"@ {
            Some(DataType::U32)
        } else if s == "u64"@ {
            Some(DataType::U64)
        } else if s == "i16"@ {
            Some(DataType::I16)
        } else if s == "i32"@ {
            Some(DataType::I32)
        } else if s == "i64"@ {
            Some(DataType::I64)
        } else if s == "f32"@ {
            Some(DataType::F32)
        } else if s == "f64"@ {
            Some(DataType::F64)
        } else {
            None
        }
    }

    /// Reads one of the eight fixed-size type spellings. Any other
    /// spelling is a configuration error; a `Raw` data type carries its
    /// size as a number and is built directly as `DataType::Raw(size)`.
    pub fn parse(value: &str, name: &str) -> (r: Result<DataType, ConfigurationError>)
        ensures
            match Self::spec_parse(value@) {
                Some(dt) => r == Ok::<DataType, ConfigurationError>(dt),
                None => ({
                    &&& r matches Err(e)
                    &&& e matches ConfigurationError::InvalidDataType { name: n }
                    &&& n@ == name@
                }),
            },
    {
        if str_eq(value, "u16") {
            Ok(DataType::U16)
        } else if str_eq(value, "u32") {
            Ok(DataType::U32)
        } else if str_eq(value, "u64") {
            Ok(DataType::U64)
        } else if str_eq(value, "i16") {
            Ok(DataType::I16)
        } else if str_eq(value, "i32") {
            Ok(DataType::I32)
        } else if str_eq(value, "i64") {
            Ok(DataType::I64)
        } else if str_eq(value, "f32") {
            Ok(DataType::F32)
        } else if str_eq(value, "f64") {
            Ok(DataType::F64)
        } else {
            Err(ConfigurationError::InvalidDataType { name: name.to_owned() })
        }
    }
}

impl WordOrder {
    /// The word order each supported spelling stands for.
    pub open spec fn spec_parse(s: Seq<char>) -> Option<WordOrder> {
        if s == "be"@ {
            Some(WordOrder::BigEndian)
        } else if s == "le"@ {
            Some(WordOrder::LittleEndian)
        } else {
            None
        }
    }

    /// Reads `"be"` as big-endian and `"le"` as little-endian; any other
    /// spelling is a configuration error.
    pub fn parse(value: &str, name: &str) -> (r: Result<WordOrder, ConfigurationError>)
        ensures
            match Self::spec_parse(value@) {
                Some(ord) => r == Ok::<WordOrder, ConfigurationError>(ord),
                None => ({
                    &&& r matches Err(e)
                    &&& e matches ConfigurationError::InvalidWordOrder { name: n }
                    &&& n@ == name@
                }),
            },
    {
        if str_eq(value, "be") {
            Ok(WordOrder::BigEndian)
        } else if str_eq(value, "le") {
            Ok(WordOrder::LittleEndian)
        } else {
            Err(ConfigurationError::InvalidWordOrder { name: name.to_owned() })
        }
    }
}

/// Compares two string slices by contents.
fn str_eq(a: &str, b: &str) -> (r: bool)
    ensures
        r == (a@ == b@),
{
    let sa: String = a.to_owned();
    let sb: String = b.to_owned();
    sa == sb
}

/// Single entry in a Modbus register mapping: one field's address, data
/// type, word order, scale factor and unit.
#[derive(Debug, PartialEq, Eq)]
pub struct Entry {
    /// Name of the mapped field.
    pub field_name: String,
    /// Name of the field's application-level type.
    pub field_ty: String,
    /// Input or holding register start address.
    pub addr: Address,
    /// Modbus data type stored at the address.
    pub ty: DataType,
    /// Word order of the stored value.
    pub ord: WordOrder,
    /// Scale factor, as an IEEE-754 double bit pattern; the stored raw
    /// value times the scale factor gives the physical quantity.
    pub x: ScaleFactorBits,
    /// Measurement unit of the physical quantity.
    pub unit: String,
}

impl Entry {
    /// One past the last register address the entry occupies.
    pub open spec fn spec_end(self) -> int {
        self.addr + self.ty.spec_word_size()
    }

    /// The entry's word range `[addr, addr + word_size)` stays inside the
    /// 16-bit address space.
    pub open spec fn wf(self) -> bool {
        self.spec_end() <= u16::MAX
    }

    /// Builds a validated entry. The codec serves big-endian word order
    /// only, so little-endian is rejected here, as is a word range that
    /// would run past the 16-bit address space.
    pub fn new(
        field_name: String,
        field_ty: String,
        addr: Address,
        ty: DataType,
        ord: WordOrder,
        x: ScaleFactorBits,
        unit: String,
    ) -> (r: Result<Entry, ConfigurationError>)
        ensures
            match r {
                Ok(e) => {
                    &&& ord == WordOrder::BigEndian
                    &&& addr + ty.spec_word_size() <= u16::MAX
                    &&& e.field_name == field_name
                    &&& e.field_ty == field_ty
                    &&& e.addr == addr
                    &&& e.ty == ty
                    &&& e.ord == ord
                    &&& e.x == x
                    &&& e.unit == unit
                    &&& e.wf()
                },
                Err(err) => {
                    &&& (ord is LittleEndian || addr + ty.spec_word_size() > u16::MAX)
                    &&& (ord is LittleEndian ==> ({
                        &&& err matches ConfigurationError::UnsupportedWordOrder { name: n }
                        &&& n@ == field_name@
                    }))
                    &&& (ord is BigEndian ==> ({
                        &&& err matches ConfigurationError::AddressRangeTooLarge { name: n }
                        &&& n@ == field_name@
                    }))
                },
            },
    {
        match ord {
            WordOrder::LittleEndian => {
                return Err(
                    ConfigurationError::UnsupportedWordOrder { name: clone_string(&field_name) },
                );
            },
            WordOrder::BigEndian => {},
        }
        let size: Quantity = ty.word_size();
        if addr as u32 + size as u32 > u16::MAX as u32 {
            return Err(ConfigurationError::AddressRangeTooLarge { name: clone_string(&field_name) });
        }
        Ok(Entry { field_name, field_ty, addr, ty, ord, x, unit })
    }
}

impl Clone for Entry {
    /// A clone keeps every field.
    fn clone(&self) -> (r: Entry)
        ensures
            r == *self,
    {
        Entry {
            field_name: clone_string(&self.field_name),
            field_ty: clone_string(&self.field_ty),
            addr: self.addr,
            ty: self.ty,
            ord: self.ord,
            x: self.x,
            unit: clone_string(&self.unit),
        }
    }
}

/// Copies a string.
fn clone_string(s: &String) -> (r: String)
    ensures
        r == *s,
{
    s.clone()
}

} // verus!
