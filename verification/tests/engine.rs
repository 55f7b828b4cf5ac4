use framedata::frame::DataFrame;
use framedata::value::DataTypes;
use framedata::value::FloatType;
use framedata::value::IntegerType;
use framedata::value::StringType;
use framedata::value::ColumnKind;
use framedata::stats::col_sum;

fn fv(x: f64) -> DataTypes {
    DataTypes::FloatType(FloatType { bits: x.to_bits() })
}

fn iv(x: i64) -> DataTypes {
    DataTypes::IntegerType(IntegerType { value: x })
}

fn sv(s: &str) -> DataTypes {
    DataTypes::StringType(StringType { value: s.to_string() })
}

fn float_bits(v: &DataTypes) -> u64 {
    match v {
        DataTypes::FloatType(f) => f.bits,
        _ => panic!("expected a float cell"),
    }
}

fn int_val(v: &DataTypes) -> i64 {
    match v {
        DataTypes::IntegerType(i) => i.value,
        _ => panic!("expected an integer cell"),
    }
}

fn text_val(v: &DataTypes) -> String {
    match v {
        DataTypes::StringType(s) => s.value.clone(),
        _ => panic!("expected a text cell"),
    }
}

fn frame_of(cols: Vec<(&str, Vec<DataTypes>)>) -> DataFrame {
    let mut df = DataFrame::new();
    df.load_data(&cols);
    df
}

fn floats_of(df: &DataFrame, name: &str) -> Vec<u64> {
    df.series(name).iter().map(float_bits).collect()
}

#[test]
fn round_trip_typing_mean_is_float_two() {
    let col: Vec<DataTypes> = ["1", "2", "3"].iter().map(|s| DataTypes::parse(s)).collect();
    for v in &col {
        assert!(matches!(v, DataTypes::FloatType(_)));
    }
    let df = frame_of(vec![("A", col)]);
    assert_eq!(float_bits(&df.mean("A")), 2.0f64.to_bits());
}

#[test]
fn column_type_predicates() {
    let df = frame_of(vec![
        ("F", vec![fv(1.0)]),
        ("I", vec![iv(1)]),
        ("S", vec![sv("a")]),
    ]);
    assert!(df.column_is_float(0) && !df.column_is_integer(0) && !df.column_is_string(0));
    assert!(df.column_is_integer(1));
    assert!(df.column_is_string(2));
    assert_eq!(df.get_column_index("I"), 1);
}

#[test]
fn divisor_consistency_floats() {
    // Sample and population deviation use the same full-count divisor.
    let df = frame_of(vec![("A", vec![fv(1.0), fv(3.0)])]);
    let s = float_bits(&df.stddev("A"));
    let p = float_bits(&df.pstddev("A"));
    assert_eq!(s, 1.0f64.to_bits());
    assert_eq!(p, 1.0f64.to_bits());
    assert_eq!(s, p);
}

#[test]
fn divisor_consistency_integers() {
    let df = frame_of(vec![("A", vec![iv(2), iv(4), iv(6)])]);
    assert_eq!(int_val(&df.stddev("A")), 1);
    assert_eq!(int_val(&df.pstddev("A")), 1);
}

#[test]
fn variance_uses_full_count() {
    let df = frame_of(vec![("A", vec![fv(1.0), fv(3.0)])]);
    assert_eq!(float_bits(&df.variance("A")), 1.0f64.to_bits());
    let di = frame_of(vec![("A", vec![iv(0), iv(5)])]);
    // mean 2 (5/2 truncates); squared deviations 4 and 9; 13/2 = 6.
    assert_eq!(int_val(&di.variance("A")), 6);
    assert_eq!(int_val(&di.stddev("A")), 2);
}

#[test]
fn deviation_variants_share_divisor_not_fold_order() {
    // Both deviations divide by the full count; for integers the
    // per-element truncating division can still round differently from
    // the single division of the total.
    let df = frame_of(vec![("A", vec![iv(0), iv(2), iv(2)])]);
    // mean 1; squared deviations 1,1,1; total 3/3 = 1 -> sqrt 1.
    assert_eq!(int_val(&df.stddev("A")), 1);
    // per element: 1/3 + 1/3 + 1/3 = 0 -> sqrt 0.
    assert_eq!(int_val(&df.pstddev("A")), 0);
}

#[test]
fn sums_fold_in_order() {
    match col_sum(ColumnKind::Floats, &vec![fv(1.5), fv(2.5)]) {
        DataTypes::FloatType(f) => assert_eq!(f.bits, 4.0f64.to_bits()),
        _ => panic!("float sum"),
    }
    match col_sum(ColumnKind::Integers, &vec![iv(1), iv(2), iv(3)]) {
        DataTypes::IntegerType(i) => assert_eq!(i.value, 6),
        _ => panic!("integer sum"),
    }
    match col_sum(ColumnKind::Texts, &vec![sv("a")]) {
        DataTypes::StringType(s) => assert_eq!(s.value, "NAN"),
        _ => panic!("text sum sentinel"),
    }
}

#[test]
fn integer_mean_truncates() {
    let df = frame_of(vec![("A", vec![iv(1), iv(2)])]);
    assert_eq!(int_val(&df.mean("A")), 1);
}

#[test]
fn text_statistics_are_nan_sentinels() {
    let df = frame_of(vec![("A", vec![sv("a"), sv("b")])]);
    assert_eq!(text_val(&df.mean("A")), "NAN");
    assert_eq!(text_val(&df.stddev("A")), "NAN");
    assert_eq!(text_val(&df.variance("A")), "NAN");
}

#[test]
fn heterogeneous_cells_degrade_to_neutral() {
    // A non-float cell in a float column contributes 0.0 to the fold.
    let df = frame_of(vec![("A", vec![fv(1.0), iv(7), fv(3.0)])]);
    assert_eq!(float_bits(&df.mean("A")), ((1.0f64 + 0.0 + 3.0) / 3.0).to_bits());
}

#[test]
fn diff_and_pct_change_lengths() {
    let df = frame_of(vec![("A", vec![fv(1.0), fv(4.0), fv(9.0)])]);
    assert_eq!(floats_of(&df.diff("A"), "A").len(), 2);
    assert_eq!(floats_of(&df.pct_change("A"), "A").len(), 2);
    let one = frame_of(vec![("A", vec![fv(1.0)])]);
    assert_eq!(one.diff("A").series("A").len(), 0);
    assert_eq!(one.pct_change("A").series("A").len(), 0);
}

#[test]
fn diff_values_floats() {
    let df = frame_of(vec![("A", vec![fv(1.0), fv(4.0), fv(9.0)])]);
    assert_eq!(
        floats_of(&df.diff("A"), "A"),
        vec![3.0f64.to_bits(), 5.0f64.to_bits()]
    );
    assert_eq!(
        floats_of(&df.pct_change("A"), "A"),
        vec![3.0f64.to_bits(), (5.0f64 / 4.0).to_bits()]
    );
}

#[test]
fn diff_of_integers_yields_floats() {
    let df = frame_of(vec![("A", vec![iv(1), iv(2), iv(4)])]);
    assert_eq!(
        floats_of(&df.diff("A"), "A"),
        vec![1.0f64.to_bits(), 2.0f64.to_bits()]
    );
}

#[test]
fn diff_of_texts_uses_lengths() {
    let df = frame_of(vec![("A", vec![sv("ab"), sv("abcd"), sv("a")])]);
    assert_eq!(
        floats_of(&df.diff("A"), "A"),
        vec![2.0f64.to_bits(), (-3.0f64).to_bits()]
    );
    assert_eq!(
        floats_of(&df.pct_change("A"), "A"),
        vec![1.0f64.to_bits(), (-3.0f64 / 4.0).to_bits()]
    );
}

#[test]
fn rolling_mean_window_length_law() {
    let col: Vec<DataTypes> = (1..=5).map(|i| fv(i as f64)).collect();
    let df = frame_of(vec![("A", col)]);
    assert_eq!(df.simple_rolling_mean("A", 2).series("A").len(), 3);
    assert_eq!(df.simple_rolling_mean("A", 5).series("A").len(), 0);
    assert_eq!(df.simple_rolling_mean("A", 9).series("A").len(), 0);
    assert_eq!(df.simple_rolling_mean("A", 1).series("A").len(), 4);
    // Window size 0 is a misconfiguration: explicitly empty.
    assert_eq!(df.simple_rolling_mean("A", 0).series("A").len(), 0);
}

#[test]
fn rolling_mean_values() {
    let df = frame_of(vec![("A", vec![fv(1.0), fv(2.0), fv(3.0)])]);
    // One adjacent window pair; the accumulator folds twice:
    // (0 + (1-2))/2 = -0.5, then (-0.5 + (2-3))/2 = -0.75.
    assert_eq!(
        floats_of(&df.simple_rolling_mean("A", 2), "A"),
        vec![(-0.75f64).to_bits()]
    );
}

#[test]
fn rolling_text_is_single_sentinel() {
    let df = frame_of(vec![("A", vec![sv("a"), sv("b"), sv("c")])]);
    let out = df.simple_rolling_mean("A", 2).series("A");
    assert_eq!(out.len(), 1);
    assert_eq!(text_val(&out[0]), "NAN");
    let out2 = df.rolling_variance("A", 2).series("A");
    assert_eq!(out2.len(), 1);
    assert_eq!(text_val(&out2[0]), "NAN");
}

#[test]
fn rolling_variance_constant_column_is_zero() {
    let df = frame_of(vec![("A", vec![fv(5.0), fv(5.0), fv(5.0), fv(5.0)])]);
    for b in floats_of(&df.rolling_variance("A", 2), "A") {
        assert_eq!(b, 0.0f64.to_bits());
    }
    for b in floats_of(&df.rolling_stddev("A", 2), "A") {
        assert_eq!(b, 0.0f64.to_bits());
    }
    let di = frame_of(vec![("A", vec![iv(7), iv(7), iv(7), iv(7)])]);
    let out = di.rolling_variance("A", 2).series("A");
    assert_eq!(out.len(), 2);
    for v in &out {
        assert_eq!(int_val(v), 0);
    }
}

fn rolling_variance_reference(vals: &[f64], w: usize) -> Vec<f64> {
    // The incremental two-overlapping-windows recurrence, in hardware
    // floating point, exactly as the engine folds it.
    let fwin = w as f64;
    let fwinmo = fwin - 1.0;
    let mut avg = 0.0f64;
    let mut var = 0.0f64;
    let mut out = Vec::new();
    if vals.len() <= w {
        return out;
    }
    for k in 0..vals.len() - w {
        let oav = avg;
        for j in 0..w {
            let a = vals[k + j];
            let b = vals[k + j + 1];
            avg = oav + (a - b) / fwin;
            var = (b - a) * (b - avg + a - oav) / fwinmo + var;
        }
        out.push(var);
    }
    out
}

#[test]
fn rolling_variance_matches_hardware_arithmetic() {
    let raw = [1.0f64, 2.0, 4.0, 8.0, 3.5, -1.25];
    let col: Vec<DataTypes> = raw.iter().map(|x| fv(*x)).collect();
    let df = frame_of(vec![("A", col)]);
    let got = floats_of(&df.rolling_variance("A", 2), "A");
    let want: Vec<u64> = rolling_variance_reference(&raw, 2)
        .iter()
        .map(|x| x.to_bits())
        .collect();
    assert_eq!(got, want);
    let got_dev = floats_of(&df.rolling_stddev("A", 2), "A");
    let want_dev: Vec<u64> = rolling_variance_reference(&raw, 2)
        .iter()
        .map(|x| x.sqrt().to_bits())
        .collect();
    assert_eq!(got_dev, want_dev);
}

#[test]
fn column_conversion_copies_readings() {
    let df = frame_of(vec![("A", vec![iv(1), iv(2)])]);
    let conv = df.column("A");
    let out = conv.series("A");
    assert_eq!(int_val(&out[0]), 1);
    assert_eq!(int_val(&out[1]), 2);
    let dt = frame_of(vec![("T", vec![sv("x")])]);
    // A text column converts through the float reading: NaN cells.
    assert_eq!(float_bits(&dt.column("T").series("T")[0]), f64::NAN.to_bits());
}

#[test]
fn add_column_appends() {
    let mut df = frame_of(vec![("A", vec![iv(1)])]);
    df.add_column(&("B", vec![sv("x")]));
    assert_eq!(df.get_column_index("B"), 1);
    assert_eq!(df.series("B").len(), 1);
}

#[test]
fn first_match_lookup_for_duplicate_labels() {
    let df = frame_of(vec![("A", vec![iv(1)]), ("A", vec![iv(2)])]);
    assert_eq!(df.get_column_index("A"), 0);
    assert_eq!(int_val(&df.series("A")[0]), 1);
}
