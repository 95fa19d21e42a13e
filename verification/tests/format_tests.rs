use cmdtimer::duration::Dur;
use cmdtimer::format::u64_to_dec;
use cmdtimer::parse_time;

#[test]
fn decimal_rendering_matches() {
    assert_eq!(u64_to_dec(0), "0");
    assert_eq!(u64_to_dec(7), "7");
    assert_eq!(u64_to_dec(42), "42");
    assert_eq!(u64_to_dec(1000), "1000");
    assert_eq!(u64_to_dec(u64::MAX), "18446744073709551615");
}

#[test]
fn zero_duration_renders_all_zero_fields() {
    let s = parse_time(Dur::new(0, 0));
    assert_eq!(s, "0 days, 00 hrs 00 min 00 sec 000 ms 000 us 000 ns");
}

#[test]
fn formatting_is_deterministic() {
    let d = Dur::new(90_061, 1_002_003);
    let first = parse_time(d);
    let second = parse_time(d);
    assert_eq!(first, second);
}

#[test]
fn mixed_duration_renders_each_field_from_the_total() {
    // 90061 s = 1 day + 1 h + 1 min + 1 s; hours and minutes are derived
    // from the total seconds, not reduced modulo the larger unit.
    let s = parse_time(Dur::new(90_061, 1_002_003));
    assert_eq!(s, "1 days, 25 hrs 1501 min 01 sec 001 ms 002 us 003 ns");
}

#[test]
fn subsecond_fields_fill_their_widths() {
    let s = parse_time(Dur::new(59, 999_999_999));
    assert_eq!(s, "0 days, 00 hrs 00 min 59 sec 999 ms 999 us 999 ns");
}

#[test]
fn small_positive_duration_renders_millis() {
    let s = parse_time(Dur::new(0, 1_000_000));
    assert_eq!(s, "0 days, 00 hrs 00 min 00 sec 001 ms 000 us 000 ns");
}
