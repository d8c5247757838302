use trade::tick::{Tick, Tickable};

#[test]
fn convert_unticked() {
    assert_eq!(Ok(1), Tick::new(2).ticked("0.5"));

    assert_eq!(Ok(5), Tick::new(10).ticked("0.5"));

    assert_eq!(Ok(4), Tick::new(2000).ticked("0.002"));

    assert_eq!(Ok(35), Tick::new(10).ticked("3.5"));

    assert_eq!(Ok(127), Tick::new(20).ticked("6.35"));
}

#[test]
fn trailing_zeros() {
    assert_eq!(Ok(127), Tick::new(20).ticked("6.3500000"));

    assert_eq!(Ok(2), Tick::new(2).ticked("1.0000"));

    assert_eq!(Ok(4), Tick::new(2000).ticked("0.0020"));
}

#[test]
fn empty_fract_part() {
    assert_eq!(Ok(2), Tick::new(2).ticked("1"));

    assert_eq!(Ok(2), Tick::new(2).ticked("1."));

    assert_eq!(Ok(0), Tick::new(321).ticked("0."));
}

#[test]
fn empty_int_part() {
    assert_eq!(Ok(5), Tick::new(10).ticked(".5"));
}

#[test]
fn bad_int_part() {
    assert_eq!(Ok(0), Tick::new(10).ticked("abc"));

    assert_eq!(Ok(5), Tick::new(10).ticked("abc.5"));
}

#[test]
fn bad_fract_part() {
    assert_eq!(Ok(50), Tick::new(10).ticked("5.abc"));
}

#[test]
fn bad_divisor() {
    assert!(Tick::new(10).ticked("5.11").is_err());
}

#[test]
fn convert_ticked() {
    assert_eq!(
        Ok("1.15".to_owned()),
        Tick::new(100).unticked(Tick::new(100).ticked("1.15").unwrap())
    );

    assert_eq!(
        Ok("1.01".to_owned()),
        Tick::new(100).unticked(Tick::new(100).ticked("1.01").unwrap())
    );

    assert_eq!(
        Ok("0.15".to_owned()),
        Tick::new(20).unticked(Tick::new(20).ticked("0.15").unwrap())
    );

    assert_eq!(
        Ok("75.5".to_owned()),
        Tick::new(2).unticked(Tick::new(2).ticked("75.5").unwrap())
    );

    assert_eq!(
        Ok("1.00".to_owned()),
        Tick::new(20).unticked(Tick::new(20).ticked("1").unwrap())
    );

    assert_eq!(
        Ok("0.0".to_owned()),
        Tick::new(10).unticked(Tick::new(10).ticked("0").unwrap()),
    );

    assert!(Tick::new(23).unticked(Tick::new(10).ticked("75.4").unwrap()).is_err());
}

#[test]
fn ticks_per_unit_is_kept() {
    assert_eq!(Tick::new(1000).ticks_per_unit(), 1000);
}

#[test]
fn leading_plus_sign_is_accepted() {
    assert_eq!(Ok(25), Tick::new(10).ticked("+2.5"));
    assert_eq!(Ok(0), Tick::new(10).ticked("+"));
    assert_eq!(Ok(0), Tick::new(10).ticked("-2"));
}

#[test]
fn only_first_two_parts_count() {
    assert_eq!(Ok(12), Tick::new(10).ticked("1.2.3"));
}

#[test]
fn integral_part_too_large_counts_as_zero() {
    assert_eq!(
        Ok(5),
        Tick::new(10).ticked("1000000000000000000000000000000000000000.5")
    );
}

#[test]
fn one_tick_per_unit_has_one_decimal() {
    assert_eq!(Ok("42.0".to_owned()), Tick::new(1).unticked(42));
    assert_eq!(Ok("12.345".to_owned()), Tick::new(1000).unticked(12345));
    assert_eq!(Ok("0.05".to_owned()), Tick::new(20).unticked(1));
}

#[test]
fn error_values() {
    let err = Tick::new(10).ticked("5.11").unwrap_err();
    assert_eq!(err, Tick::new(10).ticked("5.11").unwrap_err());
    assert!(Tick::new(3).unticked(7).is_err());
}

#[test]
fn tickable_conversions() {
    let tick = Tick::new(100);
    assert_eq!(Tickable::Ticked(115).ticked(tick), 115);
    assert_eq!(Tickable::Unticked("1.15".to_owned()).ticked(tick), 115);
    assert_eq!(Tickable::Ticked(115).unticked(tick), "1.15");
    assert_eq!(Tickable::Unticked("1.150".to_owned()).unticked(tick), "1.150");
}

#[test]
fn unticked_with_the_smallest_power_of_ten_that_the_tick_divides() {
    assert_eq!(Tick::new(8).unticked(1), Ok("0.125".to_owned()));
    assert_eq!(Tick::new(8).ticked("0.125"), Ok(1));
    assert_eq!(Tick::new(4).unticked(5), Ok("1.25".to_owned()));
    assert_eq!(Tick::new(16).unticked(3), Ok("0.1875".to_owned()));
    assert_eq!(Tick::new(40).unticked(41), Ok("1.025".to_owned()));
    assert_eq!(Tick::new(6).unticked(1).is_err(), true);
}

#[test]
fn unticked_without_overflow() {
    assert_eq!(
        Tick::new(12_500_000_000_000_000_000).unticked(u64::MAX),
        Ok("1.47573952589676412920".to_owned())
    );
    // 2^63 ticks per unit need 63 decimals.
    let t = Tick::new(1u64 << 63);
    let text = t.unticked(1).unwrap();
    assert_eq!(text.len(), 2 + 63);
    assert!(text.starts_with("0.000000000000000000108420217248550443400745280086994171142578125"));
    assert_eq!(t.unticked((1u64 << 63) + 1).unwrap(), format!("1.{}", &text[2..]));
}
