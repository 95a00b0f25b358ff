use fdp::decimal::Decimal;
use fdp::fault::{
    rate_texts, should_fail, stable_u64_from_uuid, FaultConfig, FaultInjector, Rate, Rule,
    SAMPLES,
};
use fdp::fraud::FraudChecker;
use fdp::ident::Uuid;

fn injector(raw: &str, rates: Vec<Option<Rate>>) -> FaultInjector {
    FaultInjector::new(FaultConfig::parse(raw, &rates))
}

#[test]
fn stable_uuid_hash_is_stable() {
    let id = Uuid::nil();
    let a = stable_u64_from_uuid(id);
    let b = stable_u64_from_uuid(id);
    assert_eq!(a, b);
}

#[test]
fn uuid_hash_mixes_all_bytes() {
    assert_eq!(stable_u64_from_uuid(Uuid::nil()), 0x5166_88de_a14f_78f7);
    let counted = Uuid { value: 0x0001_0203_0405_0607_0809_0a0b_0c0d_0e0f };
    assert_eq!(stable_u64_from_uuid(counted), 0x5994_88de_a14f_78f2);
}

#[test]
fn fault_descriptions_are_read() {
    let raw = " dlq.write = always , , processor.transient=every:3,fraud.hang=once,x,=never,\
               a=every:0,b=every:,c=sometimes,d=never,e=every:+4";
    let config = FaultConfig::parse(raw, &vec![]);
    assert_eq!(config.rule("dlq.write"), Some(Rule::Always));
    assert_eq!(config.rule("processor.transient"), Some(Rule::Every(3)));
    assert_eq!(config.rule("fraud.hang"), Some(Rule::Once));
    assert_eq!(config.rule(""), Some(Rule::Never));
    assert_eq!(config.rule("a"), None);
    assert_eq!(config.rule("b"), None);
    assert_eq!(config.rule("c"), None);
    assert_eq!(config.rule("d"), Some(Rule::Never));
    assert_eq!(config.rule("e"), Some(Rule::Every(4)));
    assert_eq!(config.rule("x"), None);
}

#[test]
fn later_modes_hold() {
    let config = FaultConfig::parse("p=always,p=never,q=once,q=bad", &vec![]);
    assert_eq!(config.rule("p"), Some(Rule::Never));
    assert_eq!(config.rule("q"), Some(Rule::Once));
}

#[test]
fn rates_are_read_elsewhere_and_put_in_order() {
    let raw = "a=rate:0.25,b=once,c=rate:x,d=rate: 1";
    assert_eq!(rate_texts(raw), vec!["0.25", "x", " 1"]);
    let config = FaultConfig::parse(raw, &vec![Some(Rate::Below(5)), None, Some(Rate::One)]);
    assert_eq!(config.rule("a"), Some(Rule::Rate(Rate::Below(5))));
    assert_eq!(config.rule("c"), None);
    assert_eq!(config.rule("d"), Some(Rule::Rate(Rate::One)));
    let short = FaultConfig::parse(raw, &vec![Some(Rate::Zero)]);
    assert_eq!(short.rule("a"), Some(Rule::Rate(Rate::Zero)));
    assert_eq!(short.rule("d"), None);
    assert_eq!(FaultConfig::none().rule("a"), None);
}

#[test]
fn once_fails_once() {
    let mut i = injector("p=once", vec![]);
    let calls: Vec<bool> = (0..4).map(|_| should_fail(&mut i, "p", None)).collect();
    assert_eq!(calls, vec![true, false, false, false]);
    assert_eq!(i.counters.calls("p"), 4);
}

#[test]
fn every_third_call_fails() {
    let mut i = injector("p=every:3,q=every:2", vec![]);
    let calls: Vec<bool> = (0..7).map(|_| should_fail(&mut i, "p", None)).collect();
    assert_eq!(calls, vec![false, false, true, false, false, true, false]);
    // Points are counted apart.
    assert!(!should_fail(&mut i, "q", None));
    assert!(should_fail(&mut i, "q", None));
    assert_eq!(i.counters.calls("p"), 7);
    assert_eq!(i.counters.calls("q"), 2);
    assert_eq!(i.counters.calls("r"), 0);
}

#[test]
fn always_never_and_unknown_points() {
    let mut i = injector("p=always,q=never", vec![]);
    assert!(should_fail(&mut i, "p", None));
    assert!(!should_fail(&mut i, "q", None));
    assert!(!should_fail(&mut i, "r", None));
    assert_eq!(i.counters.calls("p"), 0);
}

#[test]
fn rates_are_stable_per_correlation_id() {
    let id = Uuid { value: 0x0001_0203_0405_0607_0809_0a0b_0c0d_0e0f };
    let sample: u64 = 0x5994_88de_a14f_78f2u64 >> 11;
    let mut above = injector("p=rate:x", vec![Some(Rate::Below(sample + 1))]);
    let mut at = injector("p=rate:x", vec![Some(Rate::Below(sample))]);
    for _ in 0..3 {
        assert!(should_fail(&mut above, "p", Some(id)));
        assert!(!should_fail(&mut at, "p", Some(id)));
    }
    assert_eq!(above.counters.calls("p"), 0);
    // Without an id the calls are counted.
    should_fail(&mut above, "p", None);
    assert_eq!(above.counters.calls("p"), 1);
    let mut zero = injector("p=rate:x", vec![Some(Rate::Zero)]);
    let mut one = injector("p=rate:x", vec![Some(Rate::One)]);
    assert!(!should_fail(&mut zero, "p", None));
    assert!(should_fail(&mut one, "p", None));
    assert_eq!(one.counters.calls("p"), 0);
}

#[test]
fn a_rate_fails_its_fraction_of_counted_calls() {
    let mut quarter = injector("p=rate:x", vec![Some(Rate::Below(SAMPLES / 4))]);
    let calls: Vec<bool> = (0..2000).map(|_| should_fail(&mut quarter, "p", None)).collect();
    assert_eq!(calls.iter().filter(|f| **f).count(), 500);
    assert_eq!(calls[..8], [false, false, false, true, false, false, false, true]);
    let mut none = injector("p=rate:x", vec![Some(Rate::Below(0))]);
    assert!(!(0..100).any(|_| should_fail(&mut none, "p", None)));
    let mut all = injector("p=rate:x", vec![Some(Rate::Below(SAMPLES))]);
    assert!((0..100).all(|_| should_fail(&mut all, "p", None)));
    // More than all calls cannot fail.
    let over = FaultConfig::parse("p=rate:x", &vec![Some(Rate::Below(SAMPLES + 1))]);
    assert_eq!(over.rule("p"), None);
}

#[test]
fn call_counters_count_from_one() {
    let mut i = injector("", vec![]);
    assert_eq!(i.counters.next_call_count("p"), 1);
    assert_eq!(i.counters.next_call_count("p"), 2);
    assert_eq!(i.counters.next_call_count("q"), 1);
}

#[test]
fn large_amounts_are_blocked() {
    let blocked = FraudChecker::assess(Decimal::new(10_000_001, 2));
    assert!(blocked.is_blocked);
    assert_eq!(blocked.reason, "amount_exceeds_auto_approve_limit");
    assert_eq!(blocked.risk_score.to_text(), "0.9500");
}

#[test]
fn risk_grows_with_the_amount() {
    for (cents, score) in [
        (10_000_000, "0.4000"),
        (1_000_001, "0.4000"),
        (1_000_000, "0.1500"),
        (100_001, "0.1500"),
        (100_000, "0.0100"),
        (0, "0.0100"),
        (-500, "0.0100"),
    ] {
        let result = FraudChecker::assess(Decimal::new(cents, 2));
        assert!(!result.is_blocked);
        assert_eq!(result.reason, "");
        assert_eq!(result.risk_score.to_text(), score);
    }
}

#[test]
fn a_hanging_check_takes_ten_seconds() {
    let mut i = injector("fraud.hang=once", vec![]);
    let (delay, result) = FraudChecker::check(&mut i, Uuid::nil(), Decimal::new(5, 0));
    assert_eq!(delay, 10);
    assert!(!result.is_blocked);
    let (delay, _) = FraudChecker::check(&mut i, Uuid::nil(), Decimal::new(5, 0));
    assert_eq!(delay, 0);
}
