//! Fixed-window rate limiting: five attempts per window with a falling
//! budget, refusal with the reset time afterwards, a fresh window after
//! the reset, and no credit for success.

use veritag::ids::Id;
use veritag::rate_limiter::RateLimiter;
use veritag::api::CreateOrganizationRequest;
use veritag::api::VerifyProductEnhancedRequest;
use veritag::errors::ApiError;
use veritag::model::ProductInput;
use veritag::model::ProductResult;
use veritag::model::ProductSerialNumberResult;
use veritag::model::ProductUniqueCodeResult;
use veritag::model::UserRole;
use veritag::state::State;

fn user() -> Id {
    Id::from_bytes(vec![1])
}

fn product() -> Id {
    Id::from_bytes(vec![2])
}

#[test]
fn five_attempts_then_refusal_then_reset() {
    let mut limiter = RateLimiter::new();
    let start: u64 = 1000;

    for k in 0..5u32 {
        let info = limiter
            .record_verification_attempt(&user(), &product(), start + k as u64)
            .expect("attempt within budget");
        assert_eq!(info.remaining_attempts, 4 - k);
        assert_eq!(info.current_window_start, start);
        assert_eq!(info.reset_time, start + 300);
    }

    // The sixth attempt in the same window is refused and carries the
    // machine-usable reset time.
    let refused = limiter.record_verification_attempt(&user(), &product(), start + 5);
    match refused {
        Err(reset_time) => assert_eq!(reset_time, start + 300),
        Ok(_) => panic!("the sixth attempt must be refused"),
    }

    // After the window elapses the next attempt starts a fresh window
    // with a single attempt counted, not six.
    let info = limiter
        .record_verification_attempt(&user(), &product(), start + 301)
        .expect("fresh window admits the attempt");
    assert_eq!(info.remaining_attempts, 4);
    assert_eq!(info.current_window_start, start + 301);
}

#[test]
fn check_is_read_only() {
    let mut limiter = RateLimiter::new();
    let info = limiter.check_rate_limit(&user(), &product(), 500);
    assert_eq!(info.remaining_attempts, 5);
    assert_eq!(info.current_window_start, 500);

    let _ = limiter
        .record_verification_attempt(&user(), &product(), 500)
        .unwrap();
    // Checking at a later time computes as though reset, but does not
    // mutate: the recorded attempt still counts within its window.
    let info = limiter.check_rate_limit(&user(), &product(), 900);
    assert_eq!(info.remaining_attempts, 5);
    let info = limiter.check_rate_limit(&user(), &product(), 700);
    assert_eq!(info.remaining_attempts, 4);
}

#[test]
fn success_does_not_refund_the_budget() {
    let mut limiter = RateLimiter::new();
    for k in 0..5u64 {
        limiter
            .record_verification_attempt(&user(), &product(), 1000 + k)
            .unwrap();
    }
    limiter.record_successful_verification(&user(), &product(), 1006);
    let refused = limiter.record_verification_attempt(&user(), &product(), 1007);
    assert!(refused.is_err(), "a success still counts toward the limit");
}

#[test]
fn keys_are_independent_and_resettable() {
    let mut limiter = RateLimiter::new();
    for k in 0..5u64 {
        limiter
            .record_verification_attempt(&user(), &product(), 1000 + k)
            .unwrap();
    }
    let other = Id::from_bytes(vec![3]);
    let info = limiter
        .record_verification_attempt(&user(), &other, 1005)
        .expect("a different resource has its own budget");
    assert_eq!(info.remaining_attempts, 4);

    limiter.reset_rate_limit(&user(), &product());
    let info = limiter
        .record_verification_attempt(&user(), &product(), 1006)
        .expect("administrative reset clears the pair");
    assert_eq!(info.remaining_attempts, 4);

    limiter.reset_rate_limits();
    let info = limiter.check_rate_limit(&user(), &other, 1007);
    assert_eq!(info.remaining_attempts, 5);
}

#[test]
fn rate_limited_verification_reports_its_reset_time() {
    let mut state = State::new();
    let founder = Id::from_bytes(vec![1]);
    veritag::users::register(&mut state, &founder, 10);
    veritag::users::set_self_role(&mut state, &founder, UserRole::BrandOwner, 11);
    let org = veritag::organizations::create_organization_v2(
        &mut state,
        &founder,
        CreateOrganizationRequest {
            name: "Acme".to_string(),
            description: String::new(),
            metadata: vec![],
        },
        12,
    )
    .data
    .unwrap()
    .organization
    .id;
    let product_record = match veritag::products::create_product(
        &mut state,
        &founder,
        ProductInput {
            name: "Widget".to_string(),
            org_id: org,
            category: String::new(),
            description: String::new(),
            metadata: vec![],
        },
        13,
    ) {
        ProductResult::Product(p) => p,
        _ => panic!("product creation failed"),
    };
    let serial = match veritag::products::create_product_serial_number(
        &mut state,
        &founder,
        &product_record.id,
        14,
    ) {
        ProductSerialNumberResult::Record(s) => s,
        _ => panic!("serial creation failed"),
    };
    let code = match veritag::products::print_product_serial_number(
        &mut state,
        &founder,
        &product_record.id,
        &serial.serial_no,
        20,
    ) {
        ProductUniqueCodeResult::Record(rec) => rec.unique_code,
        _ => panic!("print failed"),
    };

    let scanner = Id::from_bytes(vec![3]);
    let request = VerifyProductEnhancedRequest {
        product_id: product_record.id.clone(),
        serial_no: serial.serial_no.clone(),
        print_version: 1,
        unique_code: code,
        metadata: vec![],
        timestamp: None,
        nonce: None,
    };
    // Five attempts open and fill the window starting at 21.
    for k in 0..5u64 {
        let resp = veritag::verification::verify_product_v2(&mut state, &scanner, &request, 21 + k);
        assert!(resp.data.is_some());
    }
    // The sixth is refused with the window's reset time in the message.
    let refused = veritag::verification::verify_product_v2(&mut state, &scanner, &request, 26);
    match refused.error {
        Some(ApiError::InvalidInput { details }) => {
            assert_eq!(details.message, "Rate limit exceeded. Try again after 321");
        },
        _ => panic!("the sixth attempt must be refused"),
    }
}
