use cmdtimer::duration::Dur;

#[test]
fn zero_duration_is_empty() {
    let z = Dur::zero();
    assert_eq!(z.secs, 0);
    assert_eq!(z.nanos, 0);
}

#[test]
fn plus_adds_exactly_with_carry() {
    let a = Dur::new(1, 600_000_000);
    let b = Dur::new(2, 700_000_000);
    let c = a.plus(&b);
    assert_eq!(c.secs, 4);
    assert_eq!(c.nanos, 300_000_000);
}

#[test]
fn plus_adds_exactly_without_carry() {
    let a = Dur::new(5, 100_000_000);
    let b = Dur::new(7, 200_000_000);
    let c = a.plus(&b);
    assert_eq!(c.secs, 12);
    assert_eq!(c.nanos, 300_000_000);
}

#[test]
fn div_by_divides_exactly() {
    let d = Dur::new(12, 0);
    let q = d.div_by(4);
    assert_eq!(q.secs, 3);
    assert_eq!(q.nanos, 0);
}

#[test]
fn div_by_truncates_at_nanosecond_resolution() {
    let d = Dur::new(1, 0);
    let q = d.div_by(3);
    assert_eq!(q.secs, 0);
    assert_eq!(q.nanos, 333_333_333);

    let tiny = Dur::new(0, 10);
    let t = tiny.div_by(3);
    assert_eq!(t.secs, 0);
    assert_eq!(t.nanos, 3);
}

#[test]
fn can_add_detects_the_representable_boundary() {
    let largest = Dur::new(u64::MAX, 999_999_999);
    assert!(largest.can_add(&Dur::new(0, 0)));
    assert!(!largest.can_add(&Dur::new(0, 1)));
    assert!(!largest.can_add(&Dur::new(1, 0)));
    assert!(Dur::new(5, 999_999_999).can_add(&Dur::new(7, 999_999_999)));
}
