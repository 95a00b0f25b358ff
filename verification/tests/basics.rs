use fdp::decimal::{Decimal, MAX_MANTISSA};
use fdp::error::{DbError, DbErrorKind, DomainError};
use fdp::idempotency::{compute_request_hash, IdempotencyKey, IdempotencyKeyError};
use fdp::ident::Uuid;
use fdp::moment::Timestamp;
use fdp::text::{find_char, i64_text, is_space, parse_u32, trim, u64_text};

fn decimal(mantissa: i128, scale: u32) -> Decimal {
    Decimal::try_from_i128_with_scale(mantissa, scale).unwrap()
}

#[test]
fn decimal_text_keeps_the_scale() {
    assert_eq!(Decimal::new(5, 2).to_text(), "0.05");
    assert_eq!(Decimal::new(-12345, 2).to_text(), "-123.45");
    assert_eq!(Decimal::new(100, 0).to_text(), "100");
    assert_eq!(Decimal::new(1000, 1).to_text(), "100.0");
    assert_eq!(Decimal::zero().to_text(), "0");
}

#[test]
fn decimals_add_and_subtract_exactly() {
    let sum = Decimal::new(1005, 2).checked_add(&Decimal::new(2, 1)).unwrap();
    assert_eq!(sum.to_text(), "10.25");
    let difference = Decimal::new(1005, 2).checked_sub(&Decimal::new(1, 0)).unwrap();
    assert_eq!(difference.to_text(), "9.05");
    let with_zero = Decimal::zero().checked_add(&Decimal::new(150, 2)).unwrap();
    assert_eq!(with_zero.scale(), 2);
    assert_eq!(with_zero.mantissa(), 150);
    let without = Decimal::new(150, 2).checked_sub(&Decimal::zero()).unwrap();
    assert_eq!(without.scale(), 2);
}

#[test]
fn decimals_of_the_same_value_are_equal() {
    assert!(Decimal::new(10, 1) == Decimal::new(100, 2));
    assert!(Decimal::new(10, 1) != Decimal::new(101, 2));
    assert!(Decimal::new(99, 2).less_than(&Decimal::new(1, 0)));
    assert!(!Decimal::new(100, 2).less_than(&Decimal::new(1, 0)));
    assert!(Decimal::new(-1, 0).less_than(&Decimal::zero()));
}

#[test]
fn decimals_too_large_to_add_give_nothing() {
    let largest = decimal(MAX_MANTISSA, 0);
    assert!(largest.checked_add(&largest).is_none());
    assert!(decimal(-MAX_MANTISSA, 0).checked_sub(&largest).is_none());
    assert_eq!(largest.checked_sub(&largest).unwrap().mantissa(), 0);
    assert!(Decimal::try_from_i128_with_scale(MAX_MANTISSA + 1, 0).is_none());
    assert!(Decimal::try_from_i128_with_scale(1, 29).is_none());
}

#[test]
fn decimals_at_the_edge_of_exactness() {
    // The sum of the magnitudes is the largest mantissa.
    let sum = decimal(MAX_MANTISSA - 1, 0).checked_add(&decimal(1, 0)).unwrap();
    assert_eq!(sum.mantissa(), MAX_MANTISSA);
    let small = decimal(MAX_MANTISSA - 10, 28).checked_add(&decimal(1, 27)).unwrap();
    assert_eq!(small.mantissa(), MAX_MANTISSA);
    assert_eq!(small.scale(), 28);
    // With zero it is exact, whatever the scales.
    let same = decimal(MAX_MANTISSA, 0).checked_add(&decimal(0, 28)).unwrap();
    assert_eq!((same.mantissa(), same.scale()), (MAX_MANTISSA, 0));
    let negated = decimal(0, 28).checked_sub(&decimal(MAX_MANTISSA, 0)).unwrap();
    assert_eq!((negated.mantissa(), negated.scale()), (-MAX_MANTISSA, 0));
    // What is rounded away does not make a difference negative.
    let rounded = decimal(MAX_MANTISSA, 0).checked_sub(&decimal(MAX_MANTISSA, 28)).unwrap();
    assert!(rounded.mantissa() >= 0);
    // The difference of two large decimals is exact.
    let difference = decimal(MAX_MANTISSA, 2).checked_sub(&decimal(MAX_MANTISSA - 7, 2)).unwrap();
    assert_eq!((difference.mantissa(), difference.scale()), (7, 2));
    let negative = decimal(5, 0).checked_add(&decimal(-MAX_MANTISSA, 1)).unwrap();
    assert_eq!((negative.mantissa(), negative.scale()), (50 - MAX_MANTISSA, 1));
}

#[test]
fn numbers_are_written_in_decimal() {
    assert_eq!(u64_text(0), "0");
    assert_eq!(u64_text(u64::MAX), "18446744073709551615");
    assert_eq!(i64_text(i64::MIN), "-9223372036854775808");
    assert_eq!(i64_text(-40), "-40");
}

#[test]
fn numbers_are_read_as_rust_reads_them() {
    for text in ["0", "7", "+7", "-7", "", "+", "4294967295", "4294967296", "00012", "1 ", "x"] {
        assert_eq!(parse_u32(text), text.parse::<u32>().ok(), "{}", text);
    }
}

#[test]
fn text_is_trimmed_as_rust_trims_it() {
    for text in ["", "  ", " a b\t", "\u{3000}x\u{85}", "y", "\n\r\u{2028}z\u{200b}"] {
        assert_eq!(trim(text), text.trim(), "{:?}", text);
    }
    for code in 0..0x11_0000u32 {
        if let Some(c) = char::from_u32(code) {
            assert_eq!(is_space(c), c.is_whitespace(), "{:x}", code);
        }
    }
    assert_eq!(find_char("a=b=c", '='), 1);
    assert_eq!(find_char("abc", '='), 3);
}

#[test]
fn identifiers_are_written_in_groups() {
    let id = Uuid { value: 0x0123_4567_89ab_cdef_0011_2233_4455_6677 };
    assert_eq!(id.to_text(), "01234567-89ab-cdef-0011-223344556677");
    assert_eq!(Uuid::nil().to_text(), "00000000-0000-0000-0000-000000000000");
    assert_eq!(id.byte(0), 0x01);
    assert_eq!(id.byte(15), 0x77);
}

#[test]
fn identifiers_are_read_back() {
    let id = Uuid { value: 0xfedc_ba98_7654_3210_8899_aabb_ccdd_eeff };
    assert_eq!(Uuid::parse_str(&id.to_text()), Some(id));
    assert_eq!(Uuid::parse_str("FEDCBA98765432108899AABBCCDDEEFF"), Some(id));
    assert_eq!(Uuid::parse_str("fedcba98"), None);
    assert_eq!(Uuid::parse_str(""), None);
}

#[test]
fn fresh_identifiers_have_their_version() {
    let random = Uuid::new_v4();
    let ordered = Uuid::now_v7();
    assert_eq!((random.value >> 76) & 0xf, 4);
    assert_eq!((random.value >> 62) & 3, 2);
    assert_eq!((ordered.value >> 76) & 0xf, 7);
    assert_eq!((ordered.value >> 62) & 3, 2);
    assert_ne!(Uuid::new_v4(), random);
    assert_ne!(Uuid::now_v7(), ordered);
}

#[test]
fn identifiers_are_ordered_by_their_bytes() {
    let low = Uuid { value: 1 };
    let high = Uuid { value: 1 << 127 };
    assert!(low.at_most(&high));
    assert!(!high.at_most(&low));
    assert!(low.at_most(&low));
}

#[test]
fn request_hash_is_sha256_in_hexadecimal() {
    assert_eq!(
        compute_request_hash(b"abc"),
        "ba7816bf8f01cfea414140de5dae2223b00361a396177a9cb410ff61f20015ad"
    );
    assert_eq!(
        compute_request_hash(b"{}"),
        "44136fa355b3678a1146ad16f7e8649e94fb4fc21fe77e8310c060f61caaff8a"
    );
}

#[test]
fn idempotency_keys_are_checked() {
    assert_eq!(IdempotencyKey::new("order-42_A").unwrap().as_str(), "order-42_A");
    assert_eq!(IdempotencyKey::new("order-42_A").unwrap().to_text(), "order-42_A");
    assert_eq!(IdempotencyKey::new("").unwrap_err(), IdempotencyKeyError::Empty);
    assert!(IdempotencyKey::new(&"k".repeat(64)).is_ok());
    assert_eq!(
        IdempotencyKey::new(&"k".repeat(65)).unwrap_err(),
        IdempotencyKeyError::TooLong(65)
    );
    assert_eq!(IdempotencyKey::new("a b").unwrap_err(), IdempotencyKeyError::InvalidChars);
    assert_eq!(IdempotencyKey::new("a/b").unwrap_err(), IdempotencyKeyError::InvalidChars);
    assert_eq!(IdempotencyKey::new("caf\u{e9}").unwrap_err(), IdempotencyKeyError::InvalidChars);
    // The length counts characters, and comes before what they are.
    assert_eq!(
        IdempotencyKey::new(&"\u{e9}".repeat(33)).unwrap_err(),
        IdempotencyKeyError::InvalidChars
    );
    assert_eq!(
        IdempotencyKey::new(&"\u{e9}".repeat(65)).unwrap_err(),
        IdempotencyKeyError::TooLong(65)
    );
    assert_eq!(
        IdempotencyKey::new(&" ".repeat(70)).unwrap_err(),
        IdempotencyKeyError::TooLong(70)
    );
    assert!(IdempotencyKey::new("a") == IdempotencyKey::new("a"));
    assert!(IdempotencyKey::new("a") != IdempotencyKey::new("b"));
}

#[test]
fn idempotency_key_errors_are_described() {
    assert_eq!(IdempotencyKeyError::Empty.to_text(), "idempotency key is empty");
    assert_eq!(
        IdempotencyKeyError::TooLong(65).to_text(),
        "idempotency key too long: 65 chars (max 64)"
    );
    assert_eq!(
        IdempotencyKeyError::InvalidChars.to_text(),
        "idempotency key contains invalid characters (allowed: a-z, A-Z, 0-9, -, _)"
    );
}

#[test]
fn the_clock_runs_and_days_are_subtracted() {
    let now = Timestamp::now();
    assert!(now.seconds > 1_600_000_000);
    let earlier = Timestamp { seconds: 1_700_000_000, nanos: 5 }.one_day_before();
    assert_eq!(earlier, Timestamp { seconds: 1_699_913_600, nanos: 5 });
}

#[test]
fn dates_are_calendar_dates_in_utc() {
    assert_eq!(Timestamp { seconds: 0, nanos: 0 }.date_text(), "1970-01-01");
    assert_eq!(Timestamp { seconds: 86_399, nanos: 999_999_999 }.date_text(), "1970-01-01");
    assert_eq!(Timestamp { seconds: 86_400, nanos: 0 }.date_text(), "1970-01-02");
    assert_eq!(Timestamp { seconds: 1_709_210_096, nanos: 0 }.date_text(), "2024-02-29");
    let first = Timestamp { seconds: fdp::moment::MIN_SECONDS, nanos: 0 };
    assert_eq!(first.date_text(), "-262143-01-01");
    let last = Timestamp { seconds: fdp::moment::MAX_SECONDS, nanos: 0 };
    assert_eq!(last.date_text(), "+262142-12-31");
}

fn all_domain_errors() -> Vec<(DomainError, u16, bool, &'static str)> {
    let id = Uuid::nil();
    let timed_out = DbError { kind: DbErrorKind::PoolTimedOut, message: "busy".to_string() };
    let other = DbError { kind: DbErrorKind::Other, message: "gone".to_string() };
    vec![
        (
            DomainError::DuplicateRequest("k".to_string()),
            200,
            false,
            "duplicate request: idempotency_key=k already processed",
        ),
        (DomainError::ValidationError("v".to_string()), 422, false, "validation failed: v"),
        (DomainError::InvalidAmount("-1".to_string()), 422, false, "amount must be positive, got -1"),
        (
            DomainError::CurrencyMismatch { source: "USD".to_string(), dest: "EUR".to_string() },
            422,
            false,
            "currency mismatch: source=USD, dest=EUR",
        ),
        (
            DomainError::InsufficientFunds {
                account_id: id,
                required: "2".to_string(),
                available: "1".to_string(),
            },
            409,
            false,
            "insufficient funds: account=00000000-0000-0000-0000-000000000000, required=2, available=1",
        ),
        (
            DomainError::AccountNotFound(id),
            404,
            false,
            "account not found: 00000000-0000-0000-0000-000000000000",
        ),
        (
            DomainError::AccountInactive(id),
            409,
            false,
            "account is inactive: 00000000-0000-0000-0000-000000000000",
        ),
        (
            DomainError::TransactionNotFound(id),
            404,
            false,
            "transaction not found: 00000000-0000-0000-0000-000000000000",
        ),
        (
            DomainError::InvalidStateTransition {
                id,
                from: "Failed".to_string(),
                to: "Settled".to_string(),
            },
            409,
            false,
            "invalid state transition: Failed \u{2192} Settled for transaction 00000000-0000-0000-0000-000000000000",
        ),
        (
            DomainError::OptimisticLockConflict {
                entity: "Transaction".to_string(),
                id,
                expected: 3,
                actual: 4,
            },
            409,
            true,
            "concurrent modification detected for Transaction 00000000-0000-0000-0000-000000000000 (expected version 3, got 4)",
        ),
        (DomainError::DatabaseError(timed_out), 500, true, "database error: busy"),
        (DomainError::DatabaseError(other), 500, false, "database error: gone"),
        (DomainError::SerializationError("s".to_string()), 500, false, "serialization error: s"),
        (DomainError::Internal("i".to_string()), 500, false, "internal error: i"),
    ]
}

#[test]
fn domain_errors_have_status_text_and_retryability() {
    for (error, status, retryable, text) in all_domain_errors() {
        assert_eq!(error.http_status(), status, "{:?}", error);
        assert_eq!(error.is_retryable(), retryable, "{:?}", error);
        assert_eq!(error.to_text(), text);
    }
}
