use hubbub_html::bloom::TinyBloomFilter;

#[test]
fn test_create_and_insert() {
    let mut f = TinyBloomFilter::new();

    f.insert(&1usize);
    f.insert(&2usize);
    f.insert(&3usize);

    assert!(f.may_include(&1usize));
    assert!(f.may_include(&2usize));
    assert!(f.may_include(&3usize));
    assert!(f.definitely_excludes(&10usize));
}

#[test]
fn test_implicitly_copyable() {
    let mut f0 = TinyBloomFilter::new();
    let mut f1 = f0;

    f0.insert(&0usize);
    f1.insert(&1usize);

    assert!(f0.may_include(&0usize));
    assert!(f1.may_include(&1usize));
    assert!(f0.definitely_excludes(&1usize));
    assert!(f1.definitely_excludes(&0usize));
}

#[test]
fn probe_sequence_takes_two_five_bit_fields() {
    assert_eq!(TinyBloomFilter::probe_sequence(0), [0, 0]);
    assert_eq!(TinyBloomFilter::probe_sequence(0b11111_00011), [3, 31]);
    assert_eq!(TinyBloomFilter::probe_sequence(u64::MAX), [31, 31]);
}

#[test]
fn hashed_insert_sets_probe_bits() {
    let mut f = TinyBloomFilter::new();
    assert!(!f.may_include_hashed(0b00010_00001));
    f.insert_hashed(0b00010_00001);
    assert!(f.may_include_hashed(0b00010_00001));
    assert!(f.may_include_hashed(0b00001_00010));
    assert!(f.may_include_hashed(0b00001_00001));
    assert!(!f.may_include_hashed(0b00011_00001));
}

#[test]
fn clear_empties_the_filter() {
    let mut f = TinyBloomFilter::new();
    f.insert(&7u64);
    f.insert(&9u32);
    assert!(f.may_include(&7u64));
    f.clear();
    assert!(f.definitely_excludes(&7u64));
    assert!(f.definitely_excludes(&9u32));
}
