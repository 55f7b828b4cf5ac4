//! The typed value model: one cell of a table.
//!
//! A cell is floating-point, integer, or text. Floating-point cells hold
//! the IEEE-754 bit pattern of their number; two floating-point cells are
//! equal exactly when their bit patterns are equal (so `+0.0` and `-0.0`
//! are distinct values, and a NaN equals the NaN with the same pattern).
//! The hash is a pure function of the value as defined by this equality.

use vstd::prelude::*;
use crate::floatbits::NAN_BITS;
use crate::floatbits::spec_float_of_i64;
use crate::floatbits::spec_int_of_float;
use crate::floatbits::spec_float_decimal;
use crate::floatbits::spec_parse_float;
use crate::floatbits::float_of_i64;
use crate::floatbits::int_of_float;
use crate::floatbits::float_decimal;
use crate::floatbits::parse_float;
use crate::textnum::spec_dec_int;
use crate::textnum::spec_fnv;
use crate::textnum::spec_fnv_from;
use crate::textnum::spec_fnv_step;
use crate::textnum::spec_chars_as_words;
use crate::textnum::spec_parse_i64;
use crate::textnum::int_to_decimal;
use crate::textnum::fnv_str;
use crate::textnum::fnv_str_from;
use crate::textnum::parse_i64;

verus! {

/// A floating-point cell, held as the IEEE-754 bit pattern of its number.
#[derive(Clone, Copy, Debug)]
pub struct FloatType {
    pub bits: u64,
}

/// An integer cell.
#[derive(Clone, Copy, Debug)]
pub struct IntegerType {
    pub value: i64,
}

/// A text cell.
#[derive(Clone, Debug)]
pub struct StringType {
    pub value: String,
}

/// The mathematical model of one cell.
pub enum ValueModel {
    Float(u64),
    Integer(i64),
    Text(Seq<char>),
}

/// One cell: a closed tagged union over the three cell types.
#[derive(Clone, Debug)]
pub enum DataTypes {
    FloatType(FloatType),
    IntegerType(IntegerType),
    StringType(StringType),
}

impl View for DataTypes {
    type V = ValueModel;

    open spec fn view(&self) -> ValueModel {
        match self {
            DataTypes::FloatType(f) => ValueModel::Float(f.bits),
            DataTypes::IntegerType(i) => ValueModel::Integer(i.value),
            DataTypes::StringType(s) => ValueModel::Text(s.value@),
        }
    }
}

/// The models of a sequence of cells.
pub open spec fn vals(s: Seq<DataTypes>) -> Seq<ValueModel> {
    s.map_values(|v: DataTypes| v@)
}

/// The element type a column is treated as, sniffed from its first cell.
#[derive(Clone, Copy, Debug, PartialEq, Eq, Structural)]
pub enum ColumnKind {
    Floats,
    Integers,
    Texts,
}

/// The kind of one cell model.
pub open spec fn spec_kind_of(v: ValueModel) -> ColumnKind {
    match v {
        ValueModel::Float(_) => ColumnKind::Floats,
        ValueModel::Integer(_) => ColumnKind::Integers,
        ValueModel::Text(_) => ColumnKind::Texts,
    }
}

/// The kind of one cell.
pub fn kind_of(v: &DataTypes) -> (k: ColumnKind)
    ensures
        k == spec_kind_of(v@),
{
    match v {
        DataTypes::FloatType(_) => ColumnKind::Floats,
        DataTypes::IntegerType(_) => ColumnKind::Integers,
        DataTypes::StringType(_) => ColumnKind::Texts,
    }
}

/// Structural equality of cells: same variant, same content; for
/// floating-point cells, equality of bit patterns.
pub fn value_eq(a: &DataTypes, b: &DataTypes) -> (r: bool)
    ensures
        r == (a@ == b@),
{
    match (a, b) {
        (DataTypes::FloatType(x), DataTypes::FloatType(y)) => x.bits == y.bits,
        (DataTypes::IntegerType(x), DataTypes::IntegerType(y)) => x.value == y.value,
        (DataTypes::StringType(x), DataTypes::StringType(y)) => x.value == y.value,
        _ => false,
    }
}

/// A copy of a cell whose model is the same.
pub fn clone_value(v: &DataTypes) -> (r: DataTypes)
    ensures
        r@ == v@,
{
    match v {
        DataTypes::FloatType(f) => DataTypes::FloatType(FloatType { bits: f.bits }),
        DataTypes::IntegerType(i) => DataTypes::IntegerType(IntegerType { value: i.value }),
        DataTypes::StringType(s) => DataTypes::StringType(StringType { value: s.value.clone() }),
    }
}

/// The mantissa word of the decomposition: the 52 stored bits, shifted
/// left once for subnormals, or with the implicit leading bit set.
pub open spec fn spec_decode_mantissa(bits: u64) -> u64 {
    if (bits >> 52) & 0x7ff == 0 {
        (bits & 0xfffffffffffff) << 1
    } else {
        (bits & 0xfffffffffffff) | 0x10000000000000
    }
}

/// The unbiased exponent (raw exponent minus 1075), as a signed quantity.
pub open spec fn spec_decode_exponent_int(bits: u64) -> int {
    (((bits >> 52) & 0x7ff) as int) - 1075
}

/// The exponent word: the unbiased exponent sign-extended to 64 bits.
pub open spec fn spec_decode_exponent(bits: u64) -> u64 {
    if spec_decode_exponent_int(bits) >= 0 {
        spec_decode_exponent_int(bits) as u64
    } else {
        (spec_decode_exponent_int(bits) + 0x1_0000_0000_0000_0000) as u64
    }
}

/// The sign word: 1 for positive bit patterns, the two's-complement
/// pattern of -1 for negative ones.
pub open spec fn spec_decode_sign(bits: u64) -> u64 {
    if bits >> 63 == 0 {
        1u64
    } else {
        0xffff_ffff_ffff_ffffu64
    }
}

impl FloatType {
    /// Decomposes an IEEE-754 double bit pattern into its
    /// (mantissa, exponent, sign) words, the form the hash is built from.
    pub fn integer_decode(bits: u64) -> (r: Vec<u64>)
        ensures
            r@.len() == 3,
            r@[0] == spec_decode_mantissa(bits),
            r@[1] == spec_decode_exponent(bits),
            r@[2] == spec_decode_sign(bits),
    {
        let raw: u64 = (bits >> 52) & 0x7ff;
        let mantissa: u64 = if raw == 0 {
            (bits & 0xfffffffffffff) << 1
        } else {
            (bits & 0xfffffffffffff) | 0x10000000000000
        };
        let exponent: u64 = if raw >= 1075 {
            raw - 1075
        } else {
            (0u64).wrapping_sub(1075 - raw)
        };
        proof {
            assert((bits >> 52) & 0x7ff < 0x800) by (bit_vector);
        }
        let sign: u64 = if (bits >> 63) == 0 {
            1
        } else {
            0xffffffffffffffff
        };
        let mut r: Vec<u64> = Vec::new();
        r.push(mantissa);
        r.push(exponent);
        r.push(sign);
        r
    }
}

/// The two's-complement bit pattern of a signed integer, as a word.
pub open spec fn spec_i64_bits(i: i64) -> u64 {
    if i >= 0 {
        i as u64
    } else {
        ((i as int) + 0x1_0000_0000_0000_0000) as u64
    }
}

/// The signed integer with two's-complement bit pattern `x`.
pub open spec fn spec_wrap_to_i64(x: u64) -> i64 {
    if x < 0x8000000000000000 {
        x as i64
    } else {
        ((x as int) - 0x1_0000_0000_0000_0000) as i64
    }
}

fn i64_bits(i: i64) -> (r: u64)
    ensures
        r == spec_i64_bits(i),
{
    if i >= 0 {
        i as u64
    } else if i == i64::MIN {
        0x8000000000000000u64
    } else {
        (0u64).wrapping_sub((-i) as u64)
    }
}

fn wrap_to_i64(x: u64) -> (r: i64)
    ensures
        r == spec_wrap_to_i64(x),
{
    if x < 0x8000000000000000 {
        x as i64
    } else if x == 0x8000000000000000 {
        i64::MIN
    } else {
        -((0u64).wrapping_sub(x) as i64)
    }
}

/// The floating-point reading of a cell: floats read as themselves,
/// integers widen, text reads as NaN.
pub open spec fn spec_fvalue(v: ValueModel) -> u64 {
    match v {
        ValueModel::Float(b) => b,
        ValueModel::Integer(i) => spec_float_of_i64(i),
        ValueModel::Text(_) => NAN_BITS,
    }
}

/// The integer reading of a cell: floats truncate toward zero, integers
/// read as themselves, text reads as its hash (a pseudo-integer used only
/// as a generic row-identity surrogate).
pub open spec fn spec_ivalue(v: ValueModel) -> i64 {
    match v {
        ValueModel::Float(b) => spec_int_of_float(b),
        ValueModel::Integer(i) => i,
        ValueModel::Text(t) => spec_wrap_to_i64(spec_fnv(spec_chars_as_words(t))),
    }
}

/// The text reading of a cell: numbers render in decimal, text reads as
/// itself.
pub open spec fn spec_svalue(v: ValueModel) -> Seq<char> {
    match v {
        ValueModel::Float(b) => spec_float_decimal(b),
        ValueModel::Integer(i) => spec_dec_int(i as int),
        ValueModel::Text(t) => t,
    }
}

/// The words a cell hashes by: the (mantissa, exponent, sign)
/// decomposition for floats, the two's-complement pattern for integers,
/// the characters for text.
pub open spec fn spec_words(v: ValueModel) -> Seq<u64> {
    match v {
        ValueModel::Float(b) => seq![
            spec_decode_mantissa(b),
            spec_decode_exponent(b),
            spec_decode_sign(b),
        ],
        ValueModel::Integer(i) => seq![spec_i64_bits(i)],
        ValueModel::Text(t) => spec_chars_as_words(t),
    }
}

/// The hash of a cell: the engine's FNV-1a style hash over the cell's
/// words.
pub open spec fn spec_hash(v: ValueModel) -> u64 {
    spec_fnv(spec_words(v))
}

/// Folds a cell's words into a running hash state.
pub(crate) fn fnv_value_from(h0: u64, v: &DataTypes) -> (r: u64)
    ensures
        r == spec_fnv_from(h0, spec_words(v@)),
{
    match v {
        DataTypes::FloatType(f) => {
            let words = FloatType::integer_decode(f.bits);
            let h1 = (h0 ^ words[0]).wrapping_mul(0x100000001b3u64);
            let h2 = (h1 ^ words[1]).wrapping_mul(0x100000001b3u64);
            let h3 = (h2 ^ words[2]).wrapping_mul(0x100000001b3u64);
            proof {
                let m = spec_decode_mantissa(f.bits);
                let e = spec_decode_exponent(f.bits);
                let sg = spec_decode_sign(f.bits);
                let ws1 = seq![m];
                let ws2 = seq![m, e];
                let ws3 = seq![m, e, sg];
                assert(ws1.drop_last() =~= Seq::<u64>::empty());
                assert(ws2.drop_last() =~= ws1);
                assert(ws3.drop_last() =~= ws2);
                assert(spec_fnv_from(h0, Seq::<u64>::empty()) == h0);
                assert(spec_fnv_from(h0, ws1) == spec_fnv_step(h0, m));
                assert(spec_fnv_from(h0, ws2) == spec_fnv_step(spec_fnv_from(h0, ws1), e));
                assert(spec_fnv_from(h0, ws3) == spec_fnv_step(spec_fnv_from(h0, ws2), sg));
            }
            h3
        },
        DataTypes::IntegerType(i) => {
            let w = i64_bits(i.value);
            let h1 = (h0 ^ w).wrapping_mul(0x100000001b3u64);
            proof {
                let ws = seq![spec_i64_bits(i.value)];
                assert(ws.drop_last() =~= Seq::<u64>::empty());
                assert(spec_fnv_from(h0, Seq::<u64>::empty()) == h0);
                assert(spec_fnv_from(h0, ws) == spec_fnv_step(h0, spec_i64_bits(i.value)));
            }
            h1
        },
        DataTypes::StringType(s) => fnv_str_from(h0, s.value.as_str()),
    }
}

/// Equal cells hash equally: the hash is a pure function of the value as
/// defined by cell equality.
pub proof fn lemma_hash_consistent_with_eq(a: DataTypes, b: DataTypes)
    requires
        a@ == b@,
    ensures
        spec_hash(a@) == spec_hash(b@),
{
}

impl DataTypes {
    /// The floating-point reading of this cell.
    pub fn fvalue(&self) -> (r: u64)
        ensures
            r == spec_fvalue(self@),
    {
        match self {
            DataTypes::FloatType(f) => f.bits,
            DataTypes::IntegerType(i) => float_of_i64(i.value),
            DataTypes::StringType(_) => NAN_BITS,
        }
    }

    /// The integer reading of this cell.
    pub fn ivalue(&self) -> (r: i64)
        ensures
            r == spec_ivalue(self@),
    {
        match self {
            DataTypes::FloatType(f) => int_of_float(f.bits),
            DataTypes::IntegerType(i) => i.value,
            DataTypes::StringType(s) => wrap_to_i64(fnv_str(s.value.as_str())),
        }
    }

    /// The text reading of this cell.
    pub fn svalue(&self) -> (r: String)
        ensures
            r@ == spec_svalue(self@),
    {
        match self {
            DataTypes::FloatType(f) => float_decimal(f.bits),
            DataTypes::IntegerType(i) => int_to_decimal(i.value),
            DataTypes::StringType(s) => s.value.clone(),
        }
    }

    /// The engine's hash of this cell.
    pub fn hash64(&self) -> (r: u64)
        ensures
            r == spec_hash(self@),
    {
        fnv_value_from(0xcbf29ce484222325u64, self)
    }

    /// Builds a cell from one delimited-text field: a field that parses as
    /// a floating-point literal becomes a float cell; otherwise one that
    /// parses as a 64-bit integer literal becomes an integer cell;
    /// otherwise the field is text.
    pub fn parse(field: &str) -> (r: DataTypes)
        ensures
            r@ == spec_sniff(field@),
    {
        match parse_float(field) {
            Some(b) => DataTypes::FloatType(FloatType { bits: b }),
            None => match parse_i64(field) {
                Some(i) => DataTypes::IntegerType(IntegerType { value: i }),
                None => DataTypes::StringType(StringType { value: field.to_owned() }),
            },
        }
    }
}

/// The model of the cell a delimited-text field becomes.
pub open spec fn spec_sniff(s: Seq<char>) -> ValueModel {
    match spec_parse_float(s) {
        Some(b) => ValueModel::Float(b),
        None => match spec_parse_i64(s) {
            Some(i) => ValueModel::Integer(i),
            None => ValueModel::Text(s),
        },
    }
}

} // verus!
