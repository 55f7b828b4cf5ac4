//! Rolling-window statistics: incremental mean, variance and deviation
//! over adjacent length-`w` windows of one column.
//!
//! Each operation walks the pairs of adjacent windows (the window at
//! offset `k` and the one at offset `k+1`), carrying a running state
//! across pairs, and emits one value per pair: `n - w` results for a
//! column of `n` elements, none when `n <= w`. A window size of 0 is a
//! misconfiguration and yields an explicit empty result. Text columns
//! yield a single not-a-number text sentinel rather than a real rolling
//! statistic.
//!
//! The variance recurrence is the incremental two-overlapping-windows
//! update: per step, `avg = oav + (a - b)/w` and
//! `var += (b - a) * (b - avg + a - oav) / (w - 1)`, in exactly this
//! order of operations, where `a` runs over the earlier window and `b`
//! over the later one.

use vstd::prelude::*;
use crate::floatbits::POS_ZERO_BITS;
use crate::floatbits::ONE_BITS;
use crate::floatbits::spec_add_bits;
use crate::floatbits::spec_sub_bits;
use crate::floatbits::spec_mul_bits;
use crate::floatbits::spec_div_bits;
use crate::floatbits::spec_sqrt_bits;
use crate::floatbits::spec_float_of_i64;
use crate::floatbits::spec_float_of_u64;
use crate::floatbits::spec_int_of_float;
use crate::floatbits::add_bits;
use crate::floatbits::sub_bits;
use crate::floatbits::mul_bits;
use crate::floatbits::div_bits;
use crate::floatbits::sqrt_bits;
use crate::floatbits::float_of_i64;
use crate::floatbits::float_of_u64;
use crate::floatbits::int_of_float;
use crate::value::DataTypes;
use crate::value::FloatType;
use crate::value::IntegerType;
use crate::value::ValueModel;
use crate::value::ColumnKind;
use crate::value::vals;
use crate::value::spec_fvalue;
use crate::value::spec_ivalue;
use crate::stats::spec_tdiv;
use crate::stats::spec_nan_text;
use crate::stats::nan_value;
use crate::stats::div_trunc;

verus! {

/// How many adjacent window pairs a column of `n` elements has for
/// window size `w`: `n - w` when `n > w`, none otherwise.
pub open spec fn spec_pairs(n: nat, w: nat) -> nat {
    if n > w {
        (n - w) as nat
    } else {
        0
    }
}

/// The rolling-mean accumulator after `j` steps of the window pair at
/// offset `k`: each step folds in `(acc + (a - b)) / w`.
pub open spec fn spec_srm_inner_f(acc0: u64, s: Seq<ValueModel>, k: int, j: int, w: u64) -> u64
    decreases j,
{
    if j <= 0 {
        acc0
    } else {
        spec_div_bits(
            spec_add_bits(
                spec_srm_inner_f(acc0, s, k, j - 1, w),
                spec_sub_bits(spec_fvalue(s[k + j - 1]), spec_fvalue(s[k + j])),
            ),
            spec_float_of_u64(w),
        )
    }
}

/// The rolling-mean state after the first `k` window pairs of a float
/// column; the state starts at +0.0 and each pair's final accumulator is
/// both that pair's result and the next pair's starting accumulator.
pub open spec fn spec_srm_state_f(s: Seq<ValueModel>, w: u64, k: int) -> u64
    decreases k,
{
    if k <= 0 {
        POS_ZERO_BITS
    } else {
        spec_srm_inner_f(spec_srm_state_f(s, w, k - 1), s, k - 1, w as int, w)
    }
}

/// The integer rolling-mean accumulator after `j` steps of the window
/// pair at offset `k`: wrapping arithmetic, truncating division.
pub open spec fn spec_srm_inner_i(acc0: i64, s: Seq<ValueModel>, k: int, j: int, w: u64) -> i64
    decreases j,
{
    if j <= 0 {
        acc0
    } else {
        spec_tdiv(
            spec_srm_inner_i(acc0, s, k, j - 1, w).wrapping_add(
                spec_ivalue(s[k + j - 1]).wrapping_sub(spec_ivalue(s[k + j])),
            ) as int,
            w as int,
        ) as i64
    }
}

/// The integer rolling-mean state after the first `k` window pairs.
pub open spec fn spec_srm_state_i(s: Seq<ValueModel>, w: u64, k: int) -> i64
    decreases k,
{
    if k <= 0 {
        0i64
    } else {
        spec_srm_inner_i(spec_srm_state_i(s, w, k - 1), s, k - 1, w as int, w)
    }
}

/// What `simple_rolling_mean` returns for a column of kind `kind` and
/// window `w`: one value per adjacent window pair for numeric kinds, a
/// single text sentinel for text columns, and an empty column for the
/// misconfigured window size 0.
pub open spec fn spec_col_rolling_mean(kind: ColumnKind, s: Seq<ValueModel>, w: u64) -> Seq<
    ValueModel,
> {
    if w == 0 {
        Seq::empty()
    } else {
        match kind {
            ColumnKind::Floats => Seq::new(
                spec_pairs(s.len(), w as nat),
                |i: int| ValueModel::Float(spec_srm_state_f(s, w, i + 1)),
            ),
            ColumnKind::Integers => Seq::new(
                spec_pairs(s.len(), w as nat),
                |i: int| ValueModel::Integer(spec_srm_state_i(s, w, i + 1)),
            ),
            ColumnKind::Texts => seq![ValueModel::Text(spec_nan_text())],
        }
    }
}

/// One step of the float rolling-variance recurrence: from the fixed
/// window-start average `oav` and the accumulated `var`, the step's new
/// average and variance.
pub open spec fn spec_rv_inner_f(
    oav: u64,
    var0: u64,
    s: Seq<ValueModel>,
    k: int,
    j: int,
    w: u64,
) -> (u64, u64)
    decreases j,
{
    if j <= 0 {
        (oav, var0)
    } else {
        let prev = spec_rv_inner_f(oav, var0, s, k, j - 1, w);
        let a = spec_fvalue(s[k + j - 1]);
        let b = spec_fvalue(s[k + j]);
        let navg = spec_add_bits(oav, spec_div_bits(spec_sub_bits(a, b), spec_float_of_u64(w)));
        let nvar = spec_add_bits(
            spec_div_bits(
                spec_mul_bits(
                    spec_sub_bits(b, a),
                    spec_sub_bits(spec_add_bits(spec_sub_bits(b, navg), a), oav),
                ),
                spec_sub_bits(spec_float_of_u64(w), ONE_BITS),
            ),
            prev.1,
        );
        (navg, nvar)
    }
}

/// The float rolling-variance state `(avg, var)` after the first `k`
/// window pairs; both components start at +0.0 and carry across pairs.
pub open spec fn spec_rv_state_f(s: Seq<ValueModel>, w: u64, k: int) -> (u64, u64)
    decreases k,
{
    if k <= 0 {
        (POS_ZERO_BITS, POS_ZERO_BITS)
    } else {
        let st = spec_rv_state_f(s, w, k - 1);
        spec_rv_inner_f(st.0, st.1, s, k - 1, w as int, w)
    }
}

/// One step of the integer rolling-variance recurrence: wrapping
/// arithmetic, truncating division by `w` and by `w - 1`.
pub open spec fn spec_rv_inner_i(
    oav: i64,
    var0: i64,
    s: Seq<ValueModel>,
    k: int,
    j: int,
    w: u64,
) -> (i64, i64)
    decreases j,
{
    if j <= 0 {
        (oav, var0)
    } else {
        let prev = spec_rv_inner_i(oav, var0, s, k, j - 1, w);
        let a = spec_ivalue(s[k + j - 1]);
        let b = spec_ivalue(s[k + j]);
        let navg = oav.wrapping_add(spec_tdiv(a.wrapping_sub(b) as int, w as int) as i64);
        let nvar = (spec_tdiv(
            b.wrapping_sub(a).wrapping_mul(
                b.wrapping_sub(navg).wrapping_add(a).wrapping_sub(oav),
            ) as int,
            w as int - 1,
        ) as i64).wrapping_add(prev.1);
        (navg, nvar)
    }
}

/// The integer rolling-variance state after the first `k` window pairs.
pub open spec fn spec_rv_state_i(s: Seq<ValueModel>, w: u64, k: int) -> (i64, i64)
    decreases k,
{
    if k <= 0 {
        (0i64, 0i64)
    } else {
        let st = spec_rv_state_i(s, w, k - 1);
        spec_rv_inner_i(st.0, st.1, s, k - 1, w as int, w)
    }
}

/// What `rolling_variance` returns: per window pair, the variance
/// component of the carried state.
pub open spec fn spec_col_rolling_variance(kind: ColumnKind, s: Seq<ValueModel>, w: u64) -> Seq<
    ValueModel,
> {
    if w == 0 {
        Seq::empty()
    } else {
        match kind {
            ColumnKind::Floats => Seq::new(
                spec_pairs(s.len(), w as nat),
                |i: int| ValueModel::Float(spec_rv_state_f(s, w, i + 1).1),
            ),
            ColumnKind::Integers => Seq::new(
                spec_pairs(s.len(), w as nat),
                |i: int| ValueModel::Integer(spec_rv_state_i(s, w, i + 1).1),
            ),
            ColumnKind::Texts => seq![ValueModel::Text(spec_nan_text())],
        }
    }
}

/// What `rolling_stddev` returns: the square root of each window pair's
/// variance (for integers, through the float reading and back).
pub open spec fn spec_col_rolling_stddev(kind: ColumnKind, s: Seq<ValueModel>, w: u64) -> Seq<
    ValueModel,
> {
    if w == 0 {
        Seq::empty()
    } else {
        match kind {
            ColumnKind::Floats => Seq::new(
                spec_pairs(s.len(), w as nat),
                |i: int| ValueModel::Float(spec_sqrt_bits(spec_rv_state_f(s, w, i + 1).1)),
            ),
            ColumnKind::Integers => Seq::new(
                spec_pairs(s.len(), w as nat),
                |i: int| ValueModel::Integer(
                    spec_int_of_float(
                        spec_sqrt_bits(spec_float_of_i64(spec_rv_state_i(s, w, i + 1).1)),
                    ),
                ),
            ),
            ColumnKind::Texts => seq![ValueModel::Text(spec_nan_text())],
        }
    }
}

/// Whether the rolling deviation/variance recurrence is free of division
/// by zero for this kind, window and length: an integer column with
/// `w == 1` and at least one window pair would divide by `w - 1 == 0`.
pub open spec fn spec_rolling_div_ok(kind: ColumnKind, n: nat, w: u64) -> bool {
    kind == ColumnKind::Integers && w == 1 ==> spec_pairs(n, 1) == 0
}

fn rolling_mean_f(col: &Vec<DataTypes>, w: usize) -> (r: Vec<DataTypes>)
    requires
        w >= 1,
    ensures
        vals(r@) == spec_col_rolling_mean(ColumnKind::Floats, vals(col@), w as u64),
{
    let ghost s = vals(col@);
    let n = col.len();
    let fwin = float_of_u64(w as u64);
    let mut out: Vec<DataTypes> = Vec::new();
    if n <= w {
        proof {
            assert(vals(out@) =~= spec_col_rolling_mean(ColumnKind::Floats, s, w as u64));
        }
        return out;
    }
    let pairs = n - w;
    let mut avg: u64 = POS_ZERO_BITS;
    let mut k: usize = 0;
    while k < pairs
        invariant
            0 <= k <= pairs,
            w >= 1,
            pairs == n - w,
            n == col@.len(),
            n > w,
            s == vals(col@),
            s.len() == n,
            fwin == spec_float_of_u64(w as u64),
            avg == spec_srm_state_f(s, w as u64, k as int),
            out@.len() == k,
            forall|q: int| 0 <= q < k ==> #[trigger] out@[q]@ == ValueModel::Float(
                spec_srm_state_f(s, w as u64, q + 1),
            ),
        decreases pairs - k,
    {
        let ghost acc0 = avg;
        let mut j: usize = 0;
        while j < w
            invariant
                0 <= j <= w,
                w >= 1,
                k < pairs == n - w,
                n == col@.len(),
                n > w,
                s == vals(col@),
                s.len() == n,
                fwin == spec_float_of_u64(w as u64),
                avg == spec_srm_inner_f(acc0, s, k as int, j as int, w as u64),
            decreases w - j,
        {
            let a = col[k + j].fvalue();
            let b = col[k + j + 1].fvalue();
            avg = div_bits(add_bits(avg, sub_bits(a, b)), fwin);
            j = j + 1;
        }
        out.push(DataTypes::FloatType(FloatType { bits: avg }));
        k = k + 1;
    }
    proof {
        assert(vals(out@) =~= spec_col_rolling_mean(ColumnKind::Floats, s, w as u64));
    }
    out
}

fn rolling_mean_i(col: &Vec<DataTypes>, w: usize) -> (r: Vec<DataTypes>)
    requires
        w >= 1,
    ensures
        vals(r@) == spec_col_rolling_mean(ColumnKind::Integers, vals(col@), w as u64),
{
    let ghost s = vals(col@);
    let n = col.len();
    let mut out: Vec<DataTypes> = Vec::new();
    if n <= w {
        proof {
            assert(vals(out@) =~= spec_col_rolling_mean(ColumnKind::Integers, s, w as u64));
        }
        return out;
    }
    let pairs = n - w;
    let mut avg: i64 = 0;
    let mut k: usize = 0;
    while k < pairs
        invariant
            0 <= k <= pairs,
            w >= 1,
            pairs == n - w,
            n == col@.len(),
            n > w,
            s == vals(col@),
            s.len() == n,
            avg == spec_srm_state_i(s, w as u64, k as int),
            out@.len() == k,
            forall|q: int| 0 <= q < k ==> #[trigger] out@[q]@ == ValueModel::Integer(
                spec_srm_state_i(s, w as u64, q + 1),
            ),
        decreases pairs - k,
    {
        let ghost acc0 = avg;
        let mut j: usize = 0;
        while j < w
            invariant
                0 <= j <= w,
                w >= 1,
                k < pairs == n - w,
                n == col@.len(),
                n > w,
                s == vals(col@),
                s.len() == n,
                avg == spec_srm_inner_i(acc0, s, k as int, j as int, w as u64),
            decreases w - j,
        {
            let a = col[k + j].ivalue();
            let b = col[k + j + 1].ivalue();
            avg = div_trunc(avg.wrapping_add(a.wrapping_sub(b)), w as u64);
            j = j + 1;
        }
        out.push(DataTypes::IntegerType(IntegerType { value: avg }));
        k = k + 1;
    }
    proof {
        assert(vals(out@) =~= spec_col_rolling_mean(ColumnKind::Integers, s, w as u64));
    }
    out
}

/// The simple rolling mean of a column treated as kind `kind`.
pub fn col_rolling_mean(kind: ColumnKind, col: &Vec<DataTypes>, w: usize) -> (r: Vec<DataTypes>)
    ensures
        vals(r@) == spec_col_rolling_mean(kind, vals(col@), w as u64),
{
    if w == 0 {
        let out: Vec<DataTypes> = Vec::new();
        proof {
            assert(vals(out@) =~= spec_col_rolling_mean(kind, vals(col@), 0u64));
        }
        return out;
    }
    match kind {
        ColumnKind::Floats => rolling_mean_f(col, w),
        ColumnKind::Integers => rolling_mean_i(col, w),
        ColumnKind::Texts => {
            let mut out: Vec<DataTypes> = Vec::new();
            out.push(nan_value());
            proof {
                assert(vals(out@) =~= spec_col_rolling_mean(ColumnKind::Texts, vals(col@), w as u64));
            }
            out
        },
    }
}

fn rolling_var_f(col: &Vec<DataTypes>, w: usize, take_root: bool) -> (r: Vec<DataTypes>)
    requires
        w >= 1,
    ensures
        take_root ==> vals(r@) == spec_col_rolling_stddev(ColumnKind::Floats, vals(col@), w as u64),
        !take_root ==> vals(r@) == spec_col_rolling_variance(
            ColumnKind::Floats,
            vals(col@),
            w as u64,
        ),
{
    let ghost s = vals(col@);
    let n = col.len();
    let fwin = float_of_u64(w as u64);
    let fwinmo = sub_bits(fwin, ONE_BITS);
    let mut out: Vec<DataTypes> = Vec::new();
    if n <= w {
        proof {
            assert(vals(out@) =~= spec_col_rolling_stddev(ColumnKind::Floats, s, w as u64));
            assert(vals(out@) =~= spec_col_rolling_variance(ColumnKind::Floats, s, w as u64));
        }
        return out;
    }
    let pairs = n - w;
    let mut avg: u64 = POS_ZERO_BITS;
    let mut var: u64 = POS_ZERO_BITS;
    let mut k: usize = 0;
    while k < pairs
        invariant
            0 <= k <= pairs,
            w >= 1,
            pairs == n - w,
            n == col@.len(),
            n > w,
            s == vals(col@),
            s.len() == n,
            fwin == spec_float_of_u64(w as u64),
            fwinmo == spec_sub_bits(spec_float_of_u64(w as u64), ONE_BITS),
            (avg, var) == spec_rv_state_f(s, w as u64, k as int),
            out@.len() == k,
            take_root ==> forall|q: int| 0 <= q < k ==> #[trigger] out@[q]@ == ValueModel::Float(
                spec_sqrt_bits(spec_rv_state_f(s, w as u64, q + 1).1),
            ),
            !take_root ==> forall|q: int| 0 <= q < k ==> #[trigger] out@[q]@ == ValueModel::Float(
                spec_rv_state_f(s, w as u64, q + 1).1,
            ),
        decreases pairs - k,
    {
        let oav = avg;
        let ghost var0 = var;
        proof {
            assert(spec_rv_inner_f(oav, var0, s, k as int, 0, w as u64) == (oav, var0));
        }
        let mut j: usize = 0;
        while j < w
            invariant
                0 <= j <= w,
                w >= 1,
                k < pairs == n - w,
                n == col@.len(),
                n > w,
                s == vals(col@),
                s.len() == n,
                fwin == spec_float_of_u64(w as u64),
                fwinmo == spec_sub_bits(spec_float_of_u64(w as u64), ONE_BITS),
                (avg, var) == spec_rv_inner_f(oav, var0, s, k as int, j as int, w as u64),
            decreases w - j,
        {
            let a = col[k + j].fvalue();
            let b = col[k + j + 1].fvalue();
            avg = add_bits(oav, div_bits(sub_bits(a, b), fwin));
            var = add_bits(
                div_bits(
                    mul_bits(sub_bits(b, a), sub_bits(add_bits(sub_bits(b, avg), a), oav)),
                    fwinmo,
                ),
                var,
            );
            j = j + 1;
        }
        proof {
            assert((avg, var) == spec_rv_inner_f(oav, var0, s, k as int, w as int, w as u64));
        }
        if take_root {
            out.push(DataTypes::FloatType(FloatType { bits: sqrt_bits(var) }));
        } else {
            out.push(DataTypes::FloatType(FloatType { bits: var }));
        }
        k = k + 1;
    }
    proof {
        if take_root {
            assert(vals(out@) =~= spec_col_rolling_stddev(ColumnKind::Floats, s, w as u64));
        } else {
            assert(vals(out@) =~= spec_col_rolling_variance(ColumnKind::Floats, s, w as u64));
        }
    }
    out
}

fn rolling_var_i(col: &Vec<DataTypes>, w: usize, take_root: bool) -> (r: Vec<DataTypes>)
    requires
        w >= 1,
        spec_rolling_div_ok(ColumnKind::Integers, col@.len(), w as u64),
    ensures
        take_root ==> vals(r@) == spec_col_rolling_stddev(
            ColumnKind::Integers,
            vals(col@),
            w as u64,
        ),
        !take_root ==> vals(r@) == spec_col_rolling_variance(
            ColumnKind::Integers,
            vals(col@),
            w as u64,
        ),
{
    let ghost s = vals(col@);
    let n = col.len();
    let mut out: Vec<DataTypes> = Vec::new();
    if n <= w {
        proof {
            assert(vals(out@) =~= spec_col_rolling_stddev(ColumnKind::Integers, s, w as u64));
            assert(vals(out@) =~= spec_col_rolling_variance(ColumnKind::Integers, s, w as u64));
        }
        return out;
    }
    let pairs = n - w;
    let mut avg: i64 = 0;
    let mut var: i64 = 0;
    let mut k: usize = 0;
    while k < pairs
        invariant
            0 <= k <= pairs,
            w >= 2,
            pairs == n - w,
            n == col@.len(),
            n > w,
            s == vals(col@),
            s.len() == n,
            (avg, var) == spec_rv_state_i(s, w as u64, k as int),
            out@.len() == k,
            take_root ==> forall|q: int| 0 <= q < k ==> #[trigger] out@[q]@ == ValueModel::Integer(
                spec_int_of_float(
                    spec_sqrt_bits(spec_float_of_i64(spec_rv_state_i(s, w as u64, q + 1).1)),
                ),
            ),
            !take_root ==> forall|q: int| 0 <= q < k ==> #[trigger] out@[q]@ == ValueModel::Integer(
                spec_rv_state_i(s, w as u64, q + 1).1,
            ),
        decreases pairs - k,
    {
        let oav = avg;
        let ghost var0 = var;
        let mut j: usize = 0;
        while j < w
            invariant
                0 <= j <= w,
                w >= 2,
                k < pairs == n - w,
                n == col@.len(),
                n > w,
                s == vals(col@),
                s.len() == n,
                (avg, var) == spec_rv_inner_i(oav, var0, s, k as int, j as int, w as u64),
            decreases w - j,
        {
            let a = col[k + j].ivalue();
            let b = col[k + j + 1].ivalue();
            avg = oav.wrapping_add(div_trunc(a.wrapping_sub(b), w as u64));
            var = div_trunc(
                b.wrapping_sub(a).wrapping_mul(b.wrapping_sub(avg).wrapping_add(a).wrapping_sub(oav)),
                (w - 1) as u64,
            ).wrapping_add(var);
            j = j + 1;
        }
        proof {
            assert((avg, var) == spec_rv_inner_i(oav, var0, s, k as int, w as int, w as u64));
        }
        if take_root {
            out.push(
                DataTypes::IntegerType(
                    IntegerType { value: int_of_float(sqrt_bits(float_of_i64(var))) },
                ),
            );
        } else {
            out.push(DataTypes::IntegerType(IntegerType { value: var }));
        }
        k = k + 1;
    }
    proof {
        if take_root {
            assert(vals(out@) =~= spec_col_rolling_stddev(ColumnKind::Integers, s, w as u64));
        } else {
            assert(vals(out@) =~= spec_col_rolling_variance(ColumnKind::Integers, s, w as u64));
        }
    }
    out
}

/// The rolling deviation of a column treated as kind `kind`.
pub fn col_rolling_stddev(kind: ColumnKind, col: &Vec<DataTypes>, w: usize) -> (r: Vec<DataTypes>)
    requires
        spec_rolling_div_ok(kind, col@.len(), w as u64),
    ensures
        vals(r@) == spec_col_rolling_stddev(kind, vals(col@), w as u64),
{
    if w == 0 {
        let out: Vec<DataTypes> = Vec::new();
        proof {
            assert(vals(out@) =~= spec_col_rolling_stddev(kind, vals(col@), 0u64));
        }
        return out;
    }
    match kind {
        ColumnKind::Floats => rolling_var_f(col, w, true),
        ColumnKind::Integers => rolling_var_i(col, w, true),
        ColumnKind::Texts => {
            let mut out: Vec<DataTypes> = Vec::new();
            out.push(nan_value());
            proof {
                assert(vals(out@) =~= spec_col_rolling_stddev(
                    ColumnKind::Texts,
                    vals(col@),
                    w as u64,
                ));
            }
            out
        },
    }
}

/// The rolling variance of a column treated as kind `kind`.
pub fn col_rolling_variance(kind: ColumnKind, col: &Vec<DataTypes>, w: usize) -> (r: Vec<DataTypes>)
    requires
        spec_rolling_div_ok(kind, col@.len(), w as u64),
    ensures
        vals(r@) == spec_col_rolling_variance(kind, vals(col@), w as u64),
{
    if w == 0 {
        let out: Vec<DataTypes> = Vec::new();
        proof {
            assert(vals(out@) =~= spec_col_rolling_variance(kind, vals(col@), 0u64));
        }
        return out;
    }
    match kind {
        ColumnKind::Floats => rolling_var_f(col, w, false),
        ColumnKind::Integers => rolling_var_i(col, w, false),
        ColumnKind::Texts => {
            let mut out: Vec<DataTypes> = Vec::new();
            out.push(nan_value());
            proof {
                assert(vals(out@) =~= spec_col_rolling_variance(
                    ColumnKind::Texts,
                    vals(col@),
                    w as u64,
                ));
            }
            out
        },
    }
}

/// Length law for the rolling window: on a numeric column of `n`
/// elements with window `w >= 1`, the simple rolling mean produces
/// exactly `n - w` results when `n > w`, and none at all when `n <= w`.
pub proof fn lemma_rolling_mean_length(k: ColumnKind, s: Seq<ValueModel>, w: u64)
    requires
        w >= 1,
        k != ColumnKind::Texts,
    ensures
        s.len() > w ==> spec_col_rolling_mean(k, s, w).len() == s.len() - w,
        s.len() <= w ==> spec_col_rolling_mean(k, s, w).len() == 0,
{
}

proof fn lemma_rv_inner_i_const(s: Seq<ValueModel>, c: i64, k: int, j: int, w: u64)
    requires
        forall|i: int| 0 <= i < s.len() ==> s[i] == ValueModel::Integer(c),
        w >= 2,
        0 <= k,
        0 <= j,
        k + j < s.len(),
    ensures
        spec_rv_inner_i(0i64, 0i64, s, k, j, w) == (0i64, 0i64),
    decreases j,
{
    if j > 0 {
        lemma_rv_inner_i_const(s, c, k, j - 1, w);
        assert(s[k + j - 1] == ValueModel::Integer(c));
        assert(s[k + j] == ValueModel::Integer(c));
        assert(spec_ivalue(s[k + j - 1]) == c);
        assert(spec_ivalue(s[k + j]) == c);
        assert(c.wrapping_sub(c) == 0i64);
        vstd::arithmetic::div_mod::lemma_div_of0(w as int);
        vstd::arithmetic::div_mod::lemma_div_of0(w as int - 1);
        assert(spec_tdiv(0, w as int) == 0);
        assert(spec_tdiv(0, w as int - 1) == 0);
        assert((0i64).wrapping_mul(c.wrapping_sub((0i64).wrapping_add(0i64)).wrapping_add(
            c,
        ).wrapping_sub(0i64)) == 0i64);
    }
}

proof fn lemma_rv_state_i_const(s: Seq<ValueModel>, c: i64, w: u64, k: int)
    requires
        forall|i: int| 0 <= i < s.len() ==> s[i] == ValueModel::Integer(c),
        w >= 2,
        0 <= k,
        k + w <= s.len(),
    ensures
        spec_rv_state_i(s, w, k) == (0i64, 0i64),
    decreases k,
{
    if k > 0 {
        lemma_rv_state_i_const(s, c, w, k - 1);
        lemma_rv_inner_i_const(s, c, k - 1, w as int, w);
    }
}

/// On a constant integer column, every rolling variance result is
/// exactly 0: each window step's entering and leaving elements cancel,
/// so the carried average and variance never move off zero. (The
/// floating-point analogue holds at run time for finite constants but
/// is not provable here, where IEEE arithmetic is uninterpreted.)
pub proof fn lemma_rolling_variance_constant_integers(s: Seq<ValueModel>, c: i64, w: u64)
    requires
        forall|i: int| 0 <= i < s.len() ==> s[i] == ValueModel::Integer(c),
        w >= 2,
    ensures
        forall|t: int| 0 <= t < spec_col_rolling_variance(ColumnKind::Integers, s, w).len()
            ==> spec_col_rolling_variance(ColumnKind::Integers, s, w)[t] == ValueModel::Integer(
            0i64,
        ),
{
    assert forall|t: int| 0 <= t < spec_col_rolling_variance(ColumnKind::Integers, s, w).len()
        implies spec_col_rolling_variance(ColumnKind::Integers, s, w)[t] == ValueModel::Integer(
        0i64,
    ) by {
        assert(spec_col_rolling_variance(ColumnKind::Integers, s, w).len() == spec_pairs(
            s.len(),
            w as nat,
        ));
        lemma_rv_state_i_const(s, c, w, t + 1);
        assert(spec_col_rolling_variance(ColumnKind::Integers, s, w)[t] == ValueModel::Integer(
            spec_rv_state_i(s, w, t + 1).1,
        ));
    }
}

} // verus!
