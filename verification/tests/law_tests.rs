use rwcore::agg::{count_str, max_str, sum};
use rwcore::decimal::Decimal;
use rwcore::elections::{election_step, ElectionLoop, ElectionPhase, LoopEvent};

fn samples() -> Vec<Decimal> {
    vec![
        Decimal::from_str("1.5").unwrap(),
        Decimal::from_str("-2.25").unwrap(),
        Decimal::from_str("0").unwrap(),
        Decimal::NaN,
        Decimal::PositiveInf,
        Decimal::NegativeInf,
    ]
}

fn is_negative(d: Decimal) -> bool {
    match d {
        Decimal::NegativeInf => true,
        Decimal::Normalized(x) => !x.is_zero() && x.is_sign_negative(),
        _ => false,
    }
}

#[test]
fn neg_twice_is_identity() {
    for d in samples() {
        assert_eq!(d.neg().neg(), d);
    }
}

#[test]
fn abs_is_not_negative_and_ignores_sign() {
    for d in samples() {
        assert!(!is_negative(d.abs()));
        assert_eq!(d.abs().abs(), d.abs());
        assert_eq!(d.neg().abs(), d.abs());
    }
}

#[test]
fn nan_absorbs_every_operation() {
    for d in samples() {
        assert_eq!(Decimal::NaN.add(d), Decimal::NaN);
        assert_eq!(d.add(Decimal::NaN), Decimal::NaN);
        assert_eq!(Decimal::NaN.sub(d), Decimal::NaN);
        assert_eq!(d.sub(Decimal::NaN), Decimal::NaN);
        assert_eq!(Decimal::NaN.mul(d), Decimal::NaN);
        assert_eq!(d.mul(Decimal::NaN), Decimal::NaN);
        assert_eq!(Decimal::NaN.div(d), Decimal::NaN);
        assert_eq!(d.div(Decimal::NaN), Decimal::NaN);
        assert_eq!(Decimal::NaN.rem(d), Decimal::NaN);
        assert_eq!(d.rem(Decimal::NaN), Decimal::NaN);
    }
}

#[test]
fn special_operands_commute() {
    let specials = [Decimal::NaN, Decimal::PositiveInf, Decimal::NegativeInf];
    for a in specials {
        for b in samples() {
            assert_eq!(a.add(b), b.add(a));
            assert_eq!(a.mul(b), b.mul(a));
        }
    }
}

#[test]
fn infinities_cancel() {
    assert_eq!(Decimal::PositiveInf.sub(Decimal::PositiveInf), Decimal::NaN);
    assert_eq!(Decimal::NegativeInf.sub(Decimal::NegativeInf), Decimal::NaN);
    assert_eq!(Decimal::PositiveInf.add(Decimal::NegativeInf), Decimal::NaN);
}

#[test]
fn equality_reflexive_and_symmetric() {
    for a in samples() {
        assert_eq!(a, a);
        for b in samples() {
            assert_eq!(a == b, b == a);
        }
    }
}

#[test]
fn special_text_parses_back() {
    for d in [Decimal::NaN, Decimal::PositiveInf, Decimal::NegativeInf] {
        assert_eq!(Decimal::from_str(&d.to_text()).unwrap(), d);
    }
}

#[test]
fn sum_of_nulls_is_null() {
    let mut s: Option<i64> = None;
    for v in [None::<i32>, None, None] {
        s = sum::<i64, i32>(s, v).unwrap();
    }
    assert_eq!(s, None);
}

#[test]
fn stopped_loop_stays_stopped() {
    let s = ElectionLoop::new();
    let (s, _) = election_step(s, LoopEvent::Begin, 1);
    assert_eq!(s.phase, ElectionPhase::InitialWait);
    // Shutdown is only heard while waiting for the timer or a shutdown.
    let (s, a) = election_step(s, LoopEvent::Shutdown, 1);
    assert!(a.is_none());
    assert_eq!(s.phase, ElectionPhase::InitialWait);
}

#[test]
fn max_str_over_a_column_is_the_greatest() {
    let column = [None, Some("pear"), Some("apple"), None, Some("zoo"), Some("kiwi")];
    let mut m: Option<&str> = None;
    for v in column {
        m = max_str(m, v).unwrap();
    }
    assert_eq!(m, Some("zoo"));
    let mut n: Option<&str> = None;
    for v in [None, None] {
        n = max_str(n, v).unwrap();
    }
    assert_eq!(n, None);
}

#[test]
fn count_over_a_column_counts_non_nulls() {
    let column = [Some("a"), None, Some("b"), None, None];
    let mut c: Option<i64> = None;
    for v in column {
        c = count_str(c, v).unwrap();
    }
    assert_eq!(c, Some(2));
}
