//! The columnar statistics engine: closed-form aggregates over one column.
//!
//! Every operation dispatches on a column kind (sniffed from a first cell
//! by the caller) and folds over the cells in order. A cell whose variant
//! disagrees with the kind contributes a neutral element to the fold
//! (0.0 / 0) instead of failing: heterogeneous columns silently degrade.
//! "Sample" and "population" deviation both divide by the full element
//! count — there is no N-1 correction anywhere — and differ only in the
//! order the divisions are folded in.

use vstd::prelude::*;
use crate::floatbits::POS_ZERO_BITS;
use crate::floatbits::spec_add_bits;
use crate::floatbits::spec_sub_bits;
use crate::floatbits::spec_mul_bits;
use crate::floatbits::spec_div_bits;
use crate::floatbits::spec_sqrt_bits;
use crate::floatbits::spec_float_of_i64;
use crate::floatbits::spec_float_of_u64;
use crate::floatbits::spec_int_of_float;
use crate::floatbits::add_bits;
use crate::floatbits::sub_bits;
use crate::floatbits::mul_bits;
use crate::floatbits::div_bits;
use crate::floatbits::sqrt_bits;
use crate::floatbits::float_of_i64;
use crate::floatbits::float_of_u64;
use crate::floatbits::int_of_float;
use crate::value::DataTypes;
use crate::value::FloatType;
use crate::value::IntegerType;
use crate::value::StringType;
use crate::value::ValueModel;
use crate::value::ColumnKind;
use crate::value::vals;
use crate::value::spec_fvalue;
use crate::value::spec_svalue;

verus! {

/// The sentinel text the engine returns for statistics over text columns.
pub open spec fn spec_nan_text() -> Seq<char> {
    "NAN"@
}

pub(crate) fn nan_value() -> (r: DataTypes)
    ensures
        r@ == ValueModel::Text(spec_nan_text()),
{
    DataTypes::StringType(StringType { value: String::from_str("NAN") })
}

/// Truncating division, as `/` on machine integers rounds.
pub open spec fn spec_tdiv(a: int, d: int) -> int {
    if a >= 0 {
        a / d
    } else {
        -((-a) / d)
    }
}

/// Truncating division of an `i64` by a positive count, total for any
/// numerator.
pub(crate) fn div_trunc(a: i64, d: u64) -> (r: i64)
    requires
        d >= 1,
    ensures
        r as int == spec_tdiv(a as int, d as int),
{
    let mag: u64 = if a >= 0 {
        a as u64
    } else if a == i64::MIN {
        0x8000000000000000u64
    } else {
        (-a) as u64
    };
    proof {
        vstd::arithmetic::div_mod::lemma_div_is_ordered_by_denominator(mag as int, 1, d as int);
        vstd::arithmetic::div_mod::lemma_div_basics(mag as int);
        vstd::arithmetic::div_mod::lemma_div_pos_is_pos(mag as int, d as int);
    }
    let q: u64 = mag / d;
    if a >= 0 {
        q as i64
    } else if q == 0x8000000000000000u64 {
        i64::MIN
    } else {
        -(q as i64)
    }
}

/// The float-fold contribution of a cell: its bits for a float cell, +0.0
/// for any other variant.
pub open spec fn spec_f_of(v: ValueModel) -> u64 {
    match v {
        ValueModel::Float(b) => b,
        _ => POS_ZERO_BITS,
    }
}

/// The integer-fold contribution of a cell: its value for an integer
/// cell, 0 for any other variant.
pub open spec fn spec_i_of(v: ValueModel) -> i64 {
    match v {
        ValueModel::Integer(i) => i,
        _ => 0,
    }
}

/// The float fold of a column: +0.0, then one IEEE addition per cell.
pub open spec fn spec_fsum(s: Seq<ValueModel>) -> u64
    decreases s.len(),
{
    if s.len() == 0 {
        POS_ZERO_BITS
    } else {
        spec_add_bits(spec_fsum(s.drop_last()), spec_f_of(s.last()))
    }
}

/// The wrapping integer fold of a column.
pub open spec fn spec_isum(s: Seq<ValueModel>) -> i64
    decreases s.len(),
{
    if s.len() == 0 {
        0i64
    } else {
        spec_isum(s.drop_last()).wrapping_add(spec_i_of(s.last()))
    }
}

/// The float mean: the fold divided once by the element count.
pub open spec fn spec_fmean(s: Seq<ValueModel>) -> u64 {
    spec_div_bits(spec_fsum(s), spec_float_of_u64(s.len() as u64))
}

/// The integer mean: the fold divided by the element count, truncating.
pub open spec fn spec_imean(s: Seq<ValueModel>) -> i64 {
    spec_tdiv(spec_isum(s) as int, s.len() as int) as i64
}

/// The squared deviation of a float cell from `m`; +0.0 for other
/// variants.
pub open spec fn spec_f_sq_of(v: ValueModel, m: u64) -> u64 {
    match v {
        ValueModel::Float(b) => spec_mul_bits(spec_sub_bits(b, m), spec_sub_bits(b, m)),
        _ => POS_ZERO_BITS,
    }
}

/// The float fold of squared deviations from `m`.
pub open spec fn spec_fss(s: Seq<ValueModel>, m: u64) -> u64
    decreases s.len(),
{
    if s.len() == 0 {
        POS_ZERO_BITS
    } else {
        spec_add_bits(spec_fss(s.drop_last(), m), spec_f_sq_of(s.last(), m))
    }
}

/// The float fold of per-element `(v - m)^2 / d` terms, the
/// population-deviation order of operations.
pub open spec fn spec_fpss(s: Seq<ValueModel>, m: u64, d: u64) -> u64
    decreases s.len(),
{
    if s.len() == 0 {
        POS_ZERO_BITS
    } else {
        spec_add_bits(
            spec_fpss(s.drop_last(), m, d),
            match s.last() {
                ValueModel::Float(b) => spec_div_bits(
                    spec_mul_bits(spec_sub_bits(b, m), spec_sub_bits(b, m)),
                    d,
                ),
                _ => POS_ZERO_BITS,
            },
        )
    }
}

/// The wrapping squared deviation of an integer cell from `m`; 0 for
/// other variants.
pub open spec fn spec_i_sq_of(v: ValueModel, m: i64) -> i64 {
    match v {
        ValueModel::Integer(i) => i.wrapping_sub(m).wrapping_mul(i.wrapping_sub(m)),
        _ => 0,
    }
}

/// The wrapping integer fold of squared deviations from `m`.
pub open spec fn spec_iss(s: Seq<ValueModel>, m: i64) -> i64
    decreases s.len(),
{
    if s.len() == 0 {
        0i64
    } else {
        spec_iss(s.drop_last(), m).wrapping_add(spec_i_sq_of(s.last(), m))
    }
}

/// The wrapping integer fold of per-element `(v - m)^2 / d` terms.
pub open spec fn spec_ipss(s: Seq<ValueModel>, m: i64, d: int) -> i64
    decreases s.len(),
{
    if s.len() == 0 {
        0i64
    } else {
        spec_ipss(s.drop_last(), m, d).wrapping_add(
            match s.last() {
                ValueModel::Integer(i) => spec_tdiv(spec_i_sq_of(s.last(), m) as int, d) as i64,
                _ => 0i64,
            },
        )
    }
}

/// What `sum` returns for a column of kind `k`.
pub open spec fn spec_col_sum(k: ColumnKind, s: Seq<ValueModel>) -> ValueModel {
    match k {
        ColumnKind::Floats => ValueModel::Float(spec_fsum(s)),
        ColumnKind::Integers => ValueModel::Integer(spec_isum(s)),
        ColumnKind::Texts => ValueModel::Text(spec_nan_text()),
    }
}

/// What `mean` returns for a column of kind `k`.
pub open spec fn spec_col_mean(k: ColumnKind, s: Seq<ValueModel>) -> ValueModel {
    match k {
        ColumnKind::Floats => ValueModel::Float(spec_fmean(s)),
        ColumnKind::Integers => ValueModel::Integer(spec_imean(s)),
        ColumnKind::Texts => ValueModel::Text(spec_nan_text()),
    }
}

/// What `stddev` returns for a column of kind `k`: the square root of the
/// squared-deviation fold divided once by the count.
pub open spec fn spec_col_stddev(k: ColumnKind, s: Seq<ValueModel>) -> ValueModel {
    match k {
        ColumnKind::Floats => ValueModel::Float(
            spec_sqrt_bits(
                spec_div_bits(
                    spec_fss(s, spec_fmean(s)),
                    spec_float_of_u64(s.len() as u64),
                ),
            ),
        ),
        ColumnKind::Integers => ValueModel::Integer(
            spec_int_of_float(
                spec_sqrt_bits(
                    spec_float_of_i64(
                        spec_tdiv(spec_iss(s, spec_imean(s)) as int, s.len() as int) as i64,
                    ),
                ),
            ),
        ),
        ColumnKind::Texts => ValueModel::Text(spec_nan_text()),
    }
}

/// What `pstddev` returns for a column of kind `k`: the square root of
/// the fold of per-element `(v - m)^2 / n` terms — the same divisor `n`
/// as `stddev`, folded in a different order.
pub open spec fn spec_col_pstddev(k: ColumnKind, s: Seq<ValueModel>) -> ValueModel {
    match k {
        ColumnKind::Floats => ValueModel::Float(
            spec_sqrt_bits(spec_fpss(s, spec_fmean(s), spec_float_of_u64(s.len() as u64))),
        ),
        ColumnKind::Integers => ValueModel::Integer(
            spec_int_of_float(
                spec_sqrt_bits(
                    spec_float_of_i64(spec_ipss(s, spec_imean(s), s.len() as int)),
                ),
            ),
        ),
        ColumnKind::Texts => ValueModel::Text(spec_nan_text()),
    }
}

/// What `variance` returns for a column of kind `k`: the squared-deviation
/// fold divided once by the count (again the full count as divisor).
pub open spec fn spec_col_variance(k: ColumnKind, s: Seq<ValueModel>) -> ValueModel {
    match k {
        ColumnKind::Floats => ValueModel::Float(
            spec_div_bits(spec_fss(s, spec_fmean(s)), spec_float_of_u64(s.len() as u64)),
        ),
        ColumnKind::Integers => ValueModel::Integer(
            spec_tdiv(spec_iss(s, spec_imean(s)) as int, s.len() as int) as i64,
        ),
        ColumnKind::Texts => ValueModel::Text(spec_nan_text()),
    }
}

fn fsum_fold(col: &Vec<DataTypes>) -> (r: u64)
    ensures
        r == spec_fsum(vals(col@)),
{
    let ghost s = vals(col@);
    let n = col.len();
    let mut acc: u64 = POS_ZERO_BITS;
    let mut i: usize = 0;
    while i < n
        invariant
            0 <= i <= n,
            n == col@.len(),
            s == vals(col@),
            s.len() == n,
            acc == spec_fsum(s.take(i as int)),
        decreases n - i,
    {
        let c: u64 = match &col[i] {
            DataTypes::FloatType(f) => f.bits,
            _ => POS_ZERO_BITS,
        };
        proof {
            assert(s.take(i + 1).drop_last() =~= s.take(i as int));
            assert(s.take(i + 1).last() == s[i as int]);
            assert(spec_f_of(s[i as int]) == c);
        }
        acc = add_bits(acc, c);
        i = i + 1;
    }
    proof {
        assert(s.take(n as int) =~= s);
    }
    acc
}

fn isum_fold(col: &Vec<DataTypes>) -> (r: i64)
    ensures
        r == spec_isum(vals(col@)),
{
    let ghost s = vals(col@);
    let n = col.len();
    let mut acc: i64 = 0;
    let mut i: usize = 0;
    while i < n
        invariant
            0 <= i <= n,
            n == col@.len(),
            s == vals(col@),
            s.len() == n,
            acc == spec_isum(s.take(i as int)),
        decreases n - i,
    {
        let c: i64 = match &col[i] {
            DataTypes::IntegerType(v) => v.value,
            _ => 0,
        };
        proof {
            assert(s.take(i + 1).drop_last() =~= s.take(i as int));
            assert(s.take(i + 1).last() == s[i as int]);
            assert(spec_i_of(s[i as int]) == c);
        }
        acc = acc.wrapping_add(c);
        i = i + 1;
    }
    proof {
        assert(s.take(n as int) =~= s);
    }
    acc
}

fn fmean_of(col: &Vec<DataTypes>) -> (r: u64)
    ensures
        r == spec_fmean(vals(col@)),
{
    let s = fsum_fold(col);
    let n = float_of_u64(col.len() as u64);
    div_bits(s, n)
}

fn imean_of(col: &Vec<DataTypes>) -> (r: i64)
    requires
        col@.len() > 0,
    ensures
        r == spec_imean(vals(col@)),
{
    let s = isum_fold(col);
    div_trunc(s, col.len() as u64)
}

fn fss_fold(col: &Vec<DataTypes>, m: u64) -> (r: u64)
    ensures
        r == spec_fss(vals(col@), m),
{
    let ghost s = vals(col@);
    let n = col.len();
    let mut acc: u64 = POS_ZERO_BITS;
    let mut i: usize = 0;
    while i < n
        invariant
            0 <= i <= n,
            n == col@.len(),
            s == vals(col@),
            s.len() == n,
            acc == spec_fss(s.take(i as int), m),
        decreases n - i,
    {
        let c: u64 = match &col[i] {
            DataTypes::FloatType(f) => {
                let d = sub_bits(f.bits, m);
                mul_bits(d, d)
            },
            _ => POS_ZERO_BITS,
        };
        proof {
            assert(s.take(i + 1).drop_last() =~= s.take(i as int));
            assert(s.take(i + 1).last() == s[i as int]);
            assert(spec_f_sq_of(s[i as int], m) == c);
        }
        acc = add_bits(acc, c);
        i = i + 1;
    }
    proof {
        assert(s.take(n as int) =~= s);
    }
    acc
}

fn fpss_fold(col: &Vec<DataTypes>, m: u64, d: u64) -> (r: u64)
    ensures
        r == spec_fpss(vals(col@), m, d),
{
    let ghost s = vals(col@);
    let n = col.len();
    let mut acc: u64 = POS_ZERO_BITS;
    let mut i: usize = 0;
    while i < n
        invariant
            0 <= i <= n,
            n == col@.len(),
            s == vals(col@),
            s.len() == n,
            acc == spec_fpss(s.take(i as int), m, d),
        decreases n - i,
    {
        let c: u64 = match &col[i] {
            DataTypes::FloatType(f) => {
                let dv = sub_bits(f.bits, m);
                div_bits(mul_bits(dv, dv), d)
            },
            _ => POS_ZERO_BITS,
        };
        proof {
            assert(s.take(i + 1).drop_last() =~= s.take(i as int));
            assert(s.take(i + 1).last() == s[i as int]);
        }
        acc = add_bits(acc, c);
        i = i + 1;
    }
    proof {
        assert(s.take(n as int) =~= s);
    }
    acc
}

fn iss_fold(col: &Vec<DataTypes>, m: i64) -> (r: i64)
    ensures
        r == spec_iss(vals(col@), m),
{
    let ghost s = vals(col@);
    let n = col.len();
    let mut acc: i64 = 0;
    let mut i: usize = 0;
    while i < n
        invariant
            0 <= i <= n,
            n == col@.len(),
            s == vals(col@),
            s.len() == n,
            acc == spec_iss(s.take(i as int), m),
        decreases n - i,
    {
        let c: i64 = match &col[i] {
            DataTypes::IntegerType(v) => {
                let dv = v.value.wrapping_sub(m);
                dv.wrapping_mul(dv)
            },
            _ => 0,
        };
        proof {
            assert(s.take(i + 1).drop_last() =~= s.take(i as int));
            assert(s.take(i + 1).last() == s[i as int]);
            assert(spec_i_sq_of(s[i as int], m) == c);
        }
        acc = acc.wrapping_add(c);
        i = i + 1;
    }
    proof {
        assert(s.take(n as int) =~= s);
    }
    acc
}

fn ipss_fold(col: &Vec<DataTypes>, m: i64, d: u64) -> (r: i64)
    requires
        d >= 1,
    ensures
        r == spec_ipss(vals(col@), m, d as int),
{
    let ghost s = vals(col@);
    let n = col.len();
    let mut acc: i64 = 0;
    let mut i: usize = 0;
    while i < n
        invariant
            0 <= i <= n,
            n == col@.len(),
            s == vals(col@),
            s.len() == n,
            d >= 1,
            acc == spec_ipss(s.take(i as int), m, d as int),
        decreases n - i,
    {
        let c: i64 = match &col[i] {
            DataTypes::IntegerType(v) => {
                let dv = v.value.wrapping_sub(m);
                div_trunc(dv.wrapping_mul(dv), d)
            },
            _ => 0,
        };
        proof {
            assert(s.take(i + 1).drop_last() =~= s.take(i as int));
            assert(s.take(i + 1).last() == s[i as int]);
        }
        acc = acc.wrapping_add(c);
        i = i + 1;
    }
    proof {
        assert(s.take(n as int) =~= s);
    }
    acc
}

/// The sum of a column treated as kind `kind`.
pub fn col_sum(kind: ColumnKind, col: &Vec<DataTypes>) -> (r: DataTypes)
    ensures
        r@ == spec_col_sum(kind, vals(col@)),
{
    match kind {
        ColumnKind::Floats => DataTypes::FloatType(FloatType { bits: fsum_fold(col) }),
        ColumnKind::Integers => DataTypes::IntegerType(IntegerType { value: isum_fold(col) }),
        ColumnKind::Texts => nan_value(),
    }
}

/// The mean of a column treated as kind `kind`; the divisor is the full
/// element count, truncating for integer columns.
pub fn col_mean(kind: ColumnKind, col: &Vec<DataTypes>) -> (r: DataTypes)
    requires
        col@.len() > 0,
    ensures
        r@ == spec_col_mean(kind, vals(col@)),
{
    match kind {
        ColumnKind::Floats => DataTypes::FloatType(FloatType { bits: fmean_of(col) }),
        ColumnKind::Integers => DataTypes::IntegerType(IntegerType { value: imean_of(col) }),
        ColumnKind::Texts => nan_value(),
    }
}

/// The sample deviation of a column treated as kind `kind`. The divisor
/// is the full element count (no N-1 correction).
pub fn col_stddev(kind: ColumnKind, col: &Vec<DataTypes>) -> (r: DataTypes)
    requires
        col@.len() > 0,
    ensures
        r@ == spec_col_stddev(kind, vals(col@)),
{
    match kind {
        ColumnKind::Floats => {
            let m = fmean_of(col);
            let ss = fss_fold(col, m);
            let v = div_bits(ss, float_of_u64(col.len() as u64));
            DataTypes::FloatType(FloatType { bits: sqrt_bits(v) })
        },
        ColumnKind::Integers => {
            let m = imean_of(col);
            let ss = iss_fold(col, m);
            let v = div_trunc(ss, col.len() as u64);
            DataTypes::IntegerType(
                IntegerType { value: int_of_float(sqrt_bits(float_of_i64(v))) },
            )
        },
        ColumnKind::Texts => nan_value(),
    }
}

/// The population deviation of a column treated as kind `kind`: the same
/// divisor as `stddev`, with the division folded per element.
pub fn col_pstddev(kind: ColumnKind, col: &Vec<DataTypes>) -> (r: DataTypes)
    requires
        col@.len() > 0,
    ensures
        r@ == spec_col_pstddev(kind, vals(col@)),
{
    match kind {
        ColumnKind::Floats => {
            let m = fmean_of(col);
            let ss = fpss_fold(col, m, float_of_u64(col.len() as u64));
            DataTypes::FloatType(FloatType { bits: sqrt_bits(ss) })
        },
        ColumnKind::Integers => {
            let m = imean_of(col);
            let ss = ipss_fold(col, m, col.len() as u64);
            DataTypes::IntegerType(
                IntegerType { value: int_of_float(sqrt_bits(float_of_i64(ss))) },
            )
        },
        ColumnKind::Texts => nan_value(),
    }
}

/// The variance of a column treated as kind `kind`; the divisor is the
/// full element count.
pub fn col_variance(kind: ColumnKind, col: &Vec<DataTypes>) -> (r: DataTypes)
    requires
        col@.len() > 0,
    ensures
        r@ == spec_col_variance(kind, vals(col@)),
{
    match kind {
        ColumnKind::Floats => {
            let m = fmean_of(col);
            let ss = fss_fold(col, m);
            DataTypes::FloatType(
                FloatType { bits: div_bits(ss, float_of_u64(col.len() as u64)) },
            )
        },
        ColumnKind::Integers => {
            let m = imean_of(col);
            let ss = iss_fold(col, m);
            DataTypes::IntegerType(IntegerType { value: div_trunc(ss, col.len() as u64) })
        },
        ColumnKind::Texts => nan_value(),
    }
}

/// The floating-point reading of a text cell's length, the numeric
/// surrogate text columns diff by.
pub open spec fn spec_text_len_f(v: ValueModel) -> u64 {
    spec_float_of_u64(spec_svalue(v).len() as u64)
}

/// How many elements `diff` and `pct_change` produce for a column of
/// `n` elements: `n - 1`, and none at all below two elements.
pub open spec fn spec_diff_len(n: nat) -> nat {
    if n < 2 {
        0
    } else {
        (n - 1) as nat
    }
}

/// What `diff` returns: element `i+1` minus element `i`, read as floats —
/// through the floating-point reading for numeric kinds, through the text
/// length for text columns — always producing a float column.
pub open spec fn spec_col_diff(k: ColumnKind, s: Seq<ValueModel>) -> Seq<ValueModel> {
    Seq::new(
        spec_diff_len(s.len()),
        |i: int| ValueModel::Float(
            match k {
                ColumnKind::Texts => spec_sub_bits(spec_text_len_f(s[i + 1]), spec_text_len_f(s[i])),
                _ => spec_sub_bits(spec_fvalue(s[i + 1]), spec_fvalue(s[i])),
            },
        ),
    )
}

/// What `pct_change` returns: the `diff` element divided by the previous
/// element's reading, always producing a float column.
pub open spec fn spec_col_pct_change(k: ColumnKind, s: Seq<ValueModel>) -> Seq<ValueModel> {
    Seq::new(
        spec_diff_len(s.len()),
        |i: int| ValueModel::Float(
            match k {
                ColumnKind::Texts => spec_div_bits(
                    spec_sub_bits(spec_text_len_f(s[i + 1]), spec_text_len_f(s[i])),
                    spec_text_len_f(s[i]),
                ),
                _ => spec_div_bits(
                    spec_sub_bits(spec_fvalue(s[i + 1]), spec_fvalue(s[i])),
                    spec_fvalue(s[i]),
                ),
            },
        ),
    )
}

fn float_reading(kind: ColumnKind, v: &DataTypes) -> (r: u64)
    ensures
        r == match kind {
            ColumnKind::Texts => spec_text_len_f(v@),
            _ => spec_fvalue(v@),
        },
{
    match kind {
        ColumnKind::Texts => {
            let s = v.svalue();
            float_of_u64(s.as_str().unicode_len() as u64)
        },
        _ => v.fvalue(),
    }
}

/// The first difference of a column treated as kind `kind`.
pub fn col_diff(kind: ColumnKind, col: &Vec<DataTypes>) -> (r: Vec<DataTypes>)
    ensures
        vals(r@) == spec_col_diff(kind, vals(col@)),
{
    let ghost s = vals(col@);
    let n = col.len();
    let mut out: Vec<DataTypes> = Vec::new();
    if n < 2 {
        proof {
            assert(vals(out@) =~= spec_col_diff(kind, s));
        }
        return out;
    }
    let mut i: usize = 0;
    while i < n - 1
        invariant
            0 <= i <= n - 1,
            2 <= n == col@.len(),
            s == vals(col@),
            s.len() == n,
            out@.len() == i,
            forall|j: int| 0 <= j < i ==> #[trigger] out@[j]@ == spec_col_diff(kind, s)[j],
        decreases n - 1 - i,
    {
        let fx = float_reading(kind, &col[i]);
        let fy = float_reading(kind, &col[i + 1]);
        out.push(DataTypes::FloatType(FloatType { bits: sub_bits(fy, fx) }));
        i = i + 1;
    }
    proof {
        assert(vals(out@) =~= spec_col_diff(kind, s));
    }
    out
}

/// The percent change of a column treated as kind `kind`.
pub fn col_pct_change(kind: ColumnKind, col: &Vec<DataTypes>) -> (r: Vec<DataTypes>)
    ensures
        vals(r@) == spec_col_pct_change(kind, vals(col@)),
{
    let ghost s = vals(col@);
    let n = col.len();
    let mut out: Vec<DataTypes> = Vec::new();
    if n < 2 {
        proof {
            assert(vals(out@) =~= spec_col_pct_change(kind, s));
        }
        return out;
    }
    let mut i: usize = 0;
    while i < n - 1
        invariant
            0 <= i <= n - 1,
            2 <= n == col@.len(),
            s == vals(col@),
            s.len() == n,
            out@.len() == i,
            forall|j: int| 0 <= j < i ==> #[trigger] out@[j]@ == spec_col_pct_change(kind, s)[j],
        decreases n - 1 - i,
    {
        let fx = float_reading(kind, &col[i]);
        let fy = float_reading(kind, &col[i + 1]);
        out.push(DataTypes::FloatType(FloatType { bits: div_bits(sub_bits(fy, fx), fx) }));
        i = i + 1;
    }
    proof {
        assert(vals(out@) =~= spec_col_pct_change(kind, s));
    }
    out
}

/// Length law for the difference transforms: on a column of `n`
/// elements, `diff` and `pct_change` both produce exactly `n - 1`
/// elements when `n >= 2`, and an empty column when `n < 2`, for every
/// column kind.
pub proof fn lemma_diff_pct_change_length(k: ColumnKind, s: Seq<ValueModel>)
    ensures
        s.len() >= 2 ==> spec_col_diff(k, s).len() == s.len() - 1,
        s.len() >= 2 ==> spec_col_pct_change(k, s).len() == s.len() - 1,
        s.len() < 2 ==> spec_col_diff(k, s).len() == 0,
        s.len() < 2 ==> spec_col_pct_change(k, s).len() == 0,
{
}

} // verus!
