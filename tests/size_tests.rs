use ls::size::{decimal_string, humanize, humanize_si, size_string, SizeFormat, SizeUnit};

#[test]
fn test_humanize() {
    assert_eq!(humanize(0), "0");
    assert_eq!(humanize(1), "1");
    assert_eq!(humanize(50), "50");
    assert_eq!(humanize(999), "999");
    assert_eq!(humanize(1000), "1000");
    assert_eq!(humanize(1001), "1001");
    assert_eq!(humanize(SizeUnit::K.bytes()), "1.0K");
    assert_eq!(humanize(1 + SizeUnit::K.bytes()), "1.1K");
    assert_eq!(humanize(2 * SizeUnit::K.bytes()), "2.0K");
    assert_eq!(humanize(20 * SizeUnit::K.bytes()), "20K");
    assert_eq!(humanize(SizeUnit::M.bytes()), "1.0M");
    assert_eq!(humanize(1 + SizeUnit::M.bytes()), "1.1M");
    assert_eq!(humanize(SizeUnit::G.bytes()), "1.0G");
    assert_eq!(humanize(1 + SizeUnit::G.bytes()), "1.1G");
    assert_eq!(humanize(SizeUnit::T.bytes()), "1.0T");
    assert_eq!(humanize(1 + SizeUnit::T.bytes()), "1.1T");
    assert_eq!(humanize(SizeUnit::P.bytes()), "1.0P");
    assert_eq!(humanize(1 + SizeUnit::P.bytes()), "1.1P");
}

#[test]
fn test_humanize_si() {
    assert_eq!(humanize_si(0), "0");
    assert_eq!(humanize_si(1), "1");
    assert_eq!(humanize_si(50), "50");
    assert_eq!(humanize_si(999), "999");
    assert_eq!(humanize_si(SizeUnit::k.bytes()), "1.0k");
    assert_eq!(humanize_si(1 + SizeUnit::k.bytes()), "1.1k");
    assert_eq!(humanize_si(2 * SizeUnit::k.bytes()), "2.0k");
    assert_eq!(humanize_si(20 * SizeUnit::k.bytes()), "20k");
    assert_eq!(humanize_si(SizeUnit::m.bytes()), "1.0m");
    assert_eq!(humanize_si(1 + SizeUnit::m.bytes()), "1.1m");
    assert_eq!(humanize_si(SizeUnit::g.bytes()), "1.0g");
    assert_eq!(humanize_si(1 + SizeUnit::g.bytes()), "1.1g");
    assert_eq!(humanize_si(SizeUnit::t.bytes()), "1.0t");
    assert_eq!(humanize_si(1 + SizeUnit::t.bytes()), "1.1t");
    assert_eq!(humanize_si(SizeUnit::p.bytes()), "1.0p");
    assert_eq!(humanize_si(1 + SizeUnit::p.bytes()), "1.1p");
}

#[test]
fn binary_unit_boundaries() {
    assert_eq!(size_string(1023, SizeFormat::Human), "1023");
    assert_eq!(size_string(1024, SizeFormat::Human), "1.0K");
    assert_eq!(size_string(1024 * 10, SizeFormat::Human), "10K");
}

#[test]
fn rounding_is_upward_below_the_next_unit() {
    // One byte short of a mebibyte stays in kibibytes and rounds up.
    assert_eq!(size_string(1024 * 1024 - 1, SizeFormat::Human), "1024K");
    assert_eq!(size_string(10 * 1024 - 1, SizeFormat::Human), "10.0K");
    assert_eq!(size_string(1536, SizeFormat::Human), "1.5K");
    assert_eq!(size_string(1537, SizeFormat::Human), "1.6K");
    assert_eq!(size_string(10 * 1024 + 1, SizeFormat::Human), "11K");
}

#[test]
fn decimal_unit_boundaries() {
    assert_eq!(size_string(999, SizeFormat::HumanSI), "999");
    assert_eq!(size_string(1000, SizeFormat::HumanSI), "1.0k");
    assert_eq!(size_string(999_999, SizeFormat::HumanSI), "1000k");
}

#[test]
fn machine_sizes_are_raw_bytes() {
    assert_eq!(size_string(0, SizeFormat::Machine), "0");
    assert_eq!(size_string(1048576, SizeFormat::Machine), "1048576");
    assert_eq!(size_string(u64::MAX, SizeFormat::Machine), "18446744073709551615");
}

#[test]
fn largest_sizes() {
    assert_eq!(humanize(u64::MAX), "16384P");
    assert_eq!(humanize_si(u64::MAX), "18447p");
}

#[test]
fn sizes_grow_with_byte_count() {
    let samples: Vec<u64> = vec![0, 1, 1023, 1024, 1025, 10239, 10240, 10241, 1048575, 1048576];
    let rank = |s: &str| -> (usize, f64) {
        let units = "KMGTP";
        match s.chars().last() {
            Some(c) if units.contains(c) => {
                (1 + units.find(c).unwrap(), s[..s.len() - 1].parse::<f64>().unwrap())
            }
            _ => (0, s.parse::<f64>().unwrap()),
        }
    };
    for w in samples.windows(2) {
        let a = rank(&humanize(w[0]));
        let b = rank(&humanize(w[1]));
        assert!(a.0 < b.0 || (a.0 == b.0 && a.1 <= b.1), "{:?} {:?}", a, b);
    }
}

#[test]
fn decimal_digits() {
    assert_eq!(decimal_string(0), "0");
    assert_eq!(decimal_string(7), "7");
    assert_eq!(decimal_string(10), "10");
    assert_eq!(decimal_string(4096), "4096");
}
