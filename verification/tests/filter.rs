use framedata::bloom::BloomFilter;
use framedata::value::DataTypes;
use framedata::value::FloatType;
use framedata::value::IntegerType;
use framedata::value::StringType;

fn fv(x: f64) -> DataTypes {
    DataTypes::FloatType(FloatType { bits: x.to_bits() })
}

fn iv(x: i64) -> DataTypes {
    DataTypes::IntegerType(IntegerType { value: x })
}

fn sv(s: &str) -> DataTypes {
    DataTypes::StringType(StringType { value: s.to_string() })
}

#[test]
fn untouched_filter_contains_nothing() {
    let bf = BloomFilter::new(10, 256, 3);
    assert!(!bf.contains(&sv("alpha")));
    assert!(!bf.contains(&iv(0)));
}

#[test]
fn added_items_are_always_found() {
    let mut bf = BloomFilter::new(10, 1024, 3);
    let items = vec![sv("alpha"), sv("beta"), iv(42), fv(2.5)];
    for it in &items {
        bf.add(it);
    }
    for it in &items {
        assert!(bf.contains(it));
    }
}

#[test]
fn absent_items_are_usually_rejected() {
    let mut bf = BloomFilter::new(10, 4096, 4);
    bf.add(&sv("alpha"));
    assert!(!bf.contains(&sv("omega")));
    assert!(!bf.contains(&iv(7)));
}
