use framedata::frame::DataFrame;
use framedata::value::DataTypes;
use framedata::value::FloatType;
use framedata::value::IntegerType;
use framedata::value::StringType;

fn fv(x: f64) -> DataTypes {
    DataTypes::FloatType(FloatType { bits: x.to_bits() })
}

fn iv(x: i64) -> DataTypes {
    DataTypes::IntegerType(IntegerType { value: x })
}

fn sv(s: &str) -> DataTypes {
    DataTypes::StringType(StringType { value: s.to_string() })
}

fn float_bits(v: &DataTypes) -> u64 {
    match v {
        DataTypes::FloatType(f) => f.bits,
        _ => panic!("expected a float cell"),
    }
}

fn int_val(v: &DataTypes) -> i64 {
    match v {
        DataTypes::IntegerType(i) => i.value,
        _ => panic!("expected an integer cell"),
    }
}

fn frame_of(cols: Vec<(&str, Vec<DataTypes>)>) -> DataFrame {
    let mut df = DataFrame::new();
    df.load_data(&cols);
    df
}

fn two_key_frame() -> DataFrame {
    frame_of(vec![
        ("A", vec![iv(1), iv(1), iv(2)]),
        ("B", vec![sv("x"), sv("y"), sv("x")]),
    ])
}

#[test]
fn grouping_is_per_column_never_joint() {
    // Selecting ["A", "B"] yields two unrelated groupings, not a
    // partition by the pair (A, B).
    let df = two_key_frame();
    let grp = df.group_by(vec!["A", "B"]);
    let size = grp.size();
    assert_eq!(size.len(), 2);
    assert_eq!(size[0].0, "A");
    assert_eq!(
        size[0].1,
        vec![("1".to_string(), 2usize), ("2".to_string(), 1usize)]
    );
    assert_eq!(size[1].0, "B");
    assert_eq!(
        size[1].1,
        vec![("x".to_string(), 2usize), ("y".to_string(), 1usize)]
    );
}

#[test]
fn fields_returns_selected_labels() {
    let df = two_key_frame();
    let grp = df.group_by(vec!["B", "A"]);
    assert_eq!(grp.fields(), vec!["B".to_string(), "A".to_string()]);
}

#[test]
fn end_to_end_station_means() {
    let df = frame_of(vec![
        ("ELEVATION", vec![iv(10), iv(10), iv(20)]),
        ("STATION", vec![sv("S1"), sv("S1"), sv("S2")]),
        ("TEMP", vec![fv(5.0), fv(7.0), fv(9.0)]),
    ]);
    let grp = df.group_by(vec!["STATION"]);
    let means = grp.mean_of("TEMP");
    assert_eq!(means.len(), 1);
    assert_eq!(means[0].len(), 2);
    assert_eq!(float_bits(&means[0][0]), 6.0f64.to_bits());
    assert_eq!(float_bits(&means[0][1]), 9.0f64.to_bits());
}

#[test]
fn group_mean_over_key_column() {
    let df = two_key_frame();
    let grp = df.group_by(vec!["A"]);
    let means = grp.mean();
    assert_eq!(means.len(), 1);
    assert_eq!(means[0].len(), 2);
    assert_eq!(int_val(&means[0][0]), 1);
    assert_eq!(int_val(&means[0][1]), 2);
}

#[test]
fn group_variance_over_key_column() {
    let df = two_key_frame();
    let grp = df.group_by(vec!["A"]);
    let vars = grp.variance();
    assert_eq!(vars[0].len(), 2);
    assert_eq!(int_val(&vars[0][0]), 0);
    assert_eq!(int_val(&vars[0][1]), 0);
    let devs = grp.stddev();
    assert_eq!(int_val(&devs[0][0]), 0);
    let pdevs = grp.pstddev();
    assert_eq!(int_val(&pdevs[0][0]), 0);
}

#[test]
fn group_rolling_and_diff_shapes() {
    let df = two_key_frame();
    let grp = df.group_by(vec!["A"]);
    let rolled = grp.simple_rolling_mean(1);
    // Bucket [1, 1] has one adjacent pair; bucket [2] has none.
    assert_eq!(rolled[0].len(), 2);
    assert_eq!(rolled[0][0].len(), 1);
    assert_eq!(int_val(&rolled[0][0][0]), 0);
    assert_eq!(rolled[0][1].len(), 0);
    let diffs = grp.diff();
    assert_eq!(diffs[0][0].len(), 1);
    assert_eq!(float_bits(&diffs[0][0][0]), 0.0f64.to_bits());
    assert_eq!(diffs[0][1].len(), 0);
    let pcts = grp.pct_change();
    assert_eq!(pcts[0][0].len(), 1);
    assert_eq!(pcts[0][1].len(), 0);
}

#[test]
fn group_rolling_variance_constant_bucket() {
    let df = frame_of(vec![("A", vec![iv(4), iv(4), iv(4)])]);
    let grp = df.group_by(vec!["A"]);
    let out = grp.rolling_variance(2);
    assert_eq!(out[0].len(), 1);
    assert_eq!(out[0][0].len(), 1);
    assert_eq!(int_val(&out[0][0][0]), 0);
    let dev = grp.rolling_stddev(2);
    assert_eq!(int_val(&dev[0][0][0]), 0);
}

#[test]
fn bucket_rows_keep_row_order() {
    let df = frame_of(vec![
        ("K", vec![sv("a"), sv("b"), sv("a"), sv("a")]),
        ("V", vec![fv(1.0), fv(100.0), fv(2.0), fv(3.0)]),
    ]);
    let grp = df.group_by(vec!["K"]);
    let means = grp.mean_of("V");
    // Bucket "a" holds rows 0, 2, 3 -> mean (1+2+3)/3 = 2.
    assert_eq!(float_bits(&means[0][0]), 2.0f64.to_bits());
    assert_eq!(float_bits(&means[0][1]), 100.0f64.to_bits());
}
