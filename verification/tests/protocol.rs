//! End-to-end protocol scenarios: printing binds one code to one print
//! version, verification classifies first and repeat scans, stale and
//! tampered codes fail, and redemption is idempotent.

use veritag::api::RedeemRewardRequest;
use veritag::api::VerifyProductEnhancedRequest;
use veritag::api::CreateOrganizationRequest;
use veritag::ids::Id;
use veritag::model::ProductInput;
use veritag::model::ProductResult;
use veritag::model::ProductSerialNumberResult;
use veritag::model::ProductUniqueCodeResult;
use veritag::model::ProductVerificationStatus;
use veritag::model::UserRole;
use veritag::organizations::create_organization_v2;
use veritag::products::create_product;
use veritag::products::create_product_serial_number;
use veritag::products::print_product_serial_number;
use veritag::state::State;
use veritag::users::register;
use veritag::users::set_self_role;
use veritag::verification::redeem_product_reward;
use veritag::verification::verify_product_v2;
use k256::ecdsa::signature::Verifier;
use sha2::Digest;

fn owner() -> Id {
    Id::from_bytes(vec![1, 2, 3, 4])
}

fn customer() -> Id {
    Id::from_bytes(vec![9, 9, 9])
}

/// Organization, product and one freshly minted serial number (version 0).
fn setup_product(state: &mut State) -> (Id, Id) {
    let owner = owner();
    register(state, &owner, 10);
    let role_result = set_self_role(state, &owner, UserRole::BrandOwner, 11);
    assert!(matches!(role_result, veritag::model::UserResult::User(_)));
    let org_resp = create_organization_v2(
        state,
        &owner,
        CreateOrganizationRequest {
            name: "Acme".to_string(),
            description: "maker of things".to_string(),
            metadata: vec![],
        },
        12,
    );
    let org_id = org_resp.data.expect("organization created").organization.id;
    let product = match create_product(
        state,
        &owner,
        ProductInput {
            name: "Widget".to_string(),
            org_id: org_id.clone(),
            category: "gadgets".to_string(),
            description: "a widget".to_string(),
            metadata: vec![],
        },
        13,
    ) {
        ProductResult::Product(p) => p,
        _ => panic!("product creation failed"),
    };
    let serial = match create_product_serial_number(state, &owner, &product.id, 14) {
        ProductSerialNumberResult::Record(s) => s,
        _ => panic!("serial creation failed"),
    };
    assert_eq!(serial.print_version, 0);
    (product.id, serial.serial_no)
}

fn print_code(state: &mut State, pid: &Id, sn: &Id, now: u64) -> (String, u8) {
    match print_product_serial_number(state, &owner(), pid, sn, now) {
        ProductUniqueCodeResult::Record(rec) => (rec.unique_code, rec.print_version),
        ProductUniqueCodeResult::Error(_) => panic!("print failed"),
    }
}

fn verify_request(sn: &Id, version: u8, code: &str) -> VerifyProductEnhancedRequest {
    VerifyProductEnhancedRequest {
        product_id: Id::from_bytes(vec![0]),
        serial_no: sn.clone(),
        print_version: version,
        unique_code: code.to_string(),
        metadata: vec![],
        timestamp: None,
        nonce: None,
    }
}

#[test]
fn printed_code_verifies_at_its_version() {
    let mut state = State::new();
    let (pid, sn) = setup_product(&mut state);
    let (c1, v1) = print_code(&mut state, &pid, &sn, 20);
    assert_eq!(v1, 1);

    let resp = verify_product_v2(&mut state, &customer(), &verify_request(&sn, 1, &c1), 21);
    let body = resp.data.expect("verification response");
    assert_eq!(body.status, ProductVerificationStatus::FirstVerification);
    let rewards = body.rewards.expect("rewards attached");
    assert!(rewards.is_first_verification);
    assert_eq!(rewards.points, 100);
    let record = body.verification.expect("record attached");
    assert_eq!(record.print_version, 1);
    assert!(!record.reward_claimed);
    let _ = pid;
}

#[test]
fn reprint_kills_earlier_codes_permanently() {
    let mut state = State::new();
    let (pid, sn) = setup_product(&mut state);
    let (c1, _) = print_code(&mut state, &pid, &sn, 20);
    let (c2, v2) = print_code(&mut state, &pid, &sn, 25);
    assert_eq!(v2, 2);
    assert_ne!(c1, c2, "each print run yields a distinct signature");

    // The old code at its old version: stale version, fast-rejected.
    let resp = verify_product_v2(&mut state, &customer(), &verify_request(&sn, 1, &c1), 30);
    assert_eq!(resp.data.unwrap().status, ProductVerificationStatus::Invalid);

    // The old code claiming the new version: signature mismatch.
    let resp = verify_product_v2(&mut state, &customer(), &verify_request(&sn, 2, &c1), 31);
    assert_eq!(resp.data.unwrap().status, ProductVerificationStatus::Invalid);

    // The fresh code at the stored version verifies.
    let resp = verify_product_v2(&mut state, &customer(), &verify_request(&sn, 2, &c2), 32);
    assert_eq!(
        resp.data.unwrap().status,
        ProductVerificationStatus::FirstVerification
    );
}

#[test]
fn three_prints_step_the_version_and_differ() {
    let mut state = State::new();
    let (pid, sn) = setup_product(&mut state);
    let (c1, v1) = print_code(&mut state, &pid, &sn, 20);
    let (c2, v2) = print_code(&mut state, &pid, &sn, 21);
    let (c3, v3) = print_code(&mut state, &pid, &sn, 22);
    assert_eq!((v1, v2, v3), (1, 2, 3));
    assert_ne!(c1, c2);
    assert_ne!(c2, c3);
    assert_ne!(c1, c3);
}

#[test]
fn flipping_one_hex_character_invalidates_the_code() {
    let mut state = State::new();
    let (pid, sn) = setup_product(&mut state);
    let (c1, _) = print_code(&mut state, &pid, &sn, 20);

    let mut chars: Vec<char> = c1.chars().collect();
    let flipped = if chars[0] == '0' { '1' } else { '0' };
    chars[0] = flipped;
    let tampered: String = chars.into_iter().collect();
    assert_ne!(tampered, c1);

    let resp = verify_product_v2(&mut state, &customer(), &verify_request(&sn, 1, &tampered), 21);
    assert_eq!(resp.data.unwrap().status, ProductVerificationStatus::Invalid);
}

#[test]
fn malformed_code_is_a_data_result_not_an_error() {
    let mut state = State::new();
    let (_pid, sn) = setup_product(&mut state);
    let (_c1, _) = print_code(&mut state, &_pid, &sn, 20);

    // Not hex at all.
    let resp = verify_product_v2(&mut state, &customer(), &verify_request(&sn, 1, "zz!!"), 21);
    let body = resp.data.expect("still a success envelope");
    assert_eq!(body.status, ProductVerificationStatus::Invalid);

    // Hex, but no signature.
    let resp = verify_product_v2(&mut state, &customer(), &verify_request(&sn, 1, "00ff"), 22);
    assert_eq!(resp.data.unwrap().status, ProductVerificationStatus::Invalid);
}

#[test]
fn unknown_serial_is_not_found() {
    let mut state = State::new();
    let (_pid, _sn) = setup_product(&mut state);
    let ghost_serial = Id::from_bytes(vec![7, 7, 7, 7]);
    let resp = verify_product_v2(
        &mut state,
        &customer(),
        &verify_request(&ghost_serial, 1, "abcd"),
        21,
    );
    assert!(resp.data.is_none());
    assert!(matches!(
        resp.error,
        Some(veritag::errors::ApiError::NotFound { .. })
    ));
}

#[test]
fn far_off_client_timestamp_is_invalid() {
    let mut state = State::new();
    let (_pid, sn) = setup_product(&mut state);
    let (c1, _) = print_code(&mut state, &_pid, &sn, 20);

    let mut request = verify_request(&sn, 1, &c1);
    request.timestamp = Some(1000);
    let resp = verify_product_v2(&mut state, &customer(), &request, 1301);
    assert_eq!(resp.data.unwrap().status, ProductVerificationStatus::Invalid);

    let mut request = verify_request(&sn, 1, &c1);
    request.timestamp = Some(1200);
    let resp = verify_product_v2(&mut state, &customer(), &request, 1300);
    assert_eq!(
        resp.data.unwrap().status,
        ProductVerificationStatus::FirstVerification
    );
}

#[test]
fn redeem_twice_surfaces_the_same_transaction() {
    let mut state = State::new();
    let (pid, sn) = setup_product(&mut state);
    let (c1, _) = print_code(&mut state, &pid, &sn, 20);

    let resp = verify_product_v2(&mut state, &customer(), &verify_request(&sn, 1, &c1), 21);
    assert_eq!(
        resp.data.unwrap().status,
        ProductVerificationStatus::FirstVerification
    );

    let request = RedeemRewardRequest {
        serial_no: sn.clone(),
        unique_code: c1.clone(),
        wallet_address: "wallet-1".to_string(),
    };
    let first = redeem_product_reward(&mut state, &customer(), &request, 30);
    let first_body = first.data.expect("redemption response");
    assert!(first_body.success);
    let tx = first_body.transaction_id.expect("transaction recorded");

    let second = redeem_product_reward(&mut state, &customer(), &request, 31);
    let second_body = second.data.expect("idempotent response");
    assert!(!second_body.success);
    assert_eq!(second_body.transaction_id, Some(tx));
}

#[test]
fn repeat_scan_is_classified_multiple_and_pays_less() {
    let mut state = State::new();
    let (pid, sn) = setup_product(&mut state);
    let (c1, _) = print_code(&mut state, &pid, &sn, 20);

    let resp = verify_product_v2(&mut state, &customer(), &verify_request(&sn, 1, &c1), 21);
    let body = resp.data.unwrap();
    assert_eq!(body.status, ProductVerificationStatus::FirstVerification);
    assert_eq!(body.rewards.unwrap().points, 100);

    let resp = verify_product_v2(&mut state, &customer(), &verify_request(&sn, 1, &c1), 22);
    let body = resp.data.unwrap();
    assert_eq!(body.status, ProductVerificationStatus::MultipleVerification);
    let rewards = body.rewards.unwrap();
    assert!(!rewards.is_first_verification);
    assert_eq!(rewards.points, 10);
}

#[test]
fn printed_code_checks_out_under_independent_tooling() {
    let mut state = State::new();
    let (pid, sn) = setup_product(&mut state);
    let (c1, v1) = print_code(&mut state, &pid, &sn, 20);

    // Reconstruct the binding contract by hand: the canonical message,
    // its SHA-256 digest, and an ECDSA check under the product's key.
    let product = match veritag::products::get_product_by_id(&state, &owner(), &pid) {
        ProductResult::Product(p) => p,
        _ => panic!("product lookup failed"),
    };
    let msg = format!(
        "{}_{}_{}",
        hex::encode(&pid.bytes),
        hex::encode(&sn.bytes),
        v1
    );
    let digest = sha2::Sha256::digest(msg.as_bytes());
    let pk_bytes = hex::decode(&product.public_key).expect("stored key is hex");
    let point = k256::EncodedPoint::from_bytes(pk_bytes).expect("stored key is SEC1");
    let vk = k256::ecdsa::VerifyingKey::from_encoded_point(&point).expect("key parses");
    let sig_bytes = hex::decode(&c1).expect("code is hex");
    let sig = k256::ecdsa::Signature::from_slice(&sig_bytes).expect("code is a signature");
    vk.verify(&digest, &sig).expect("code signs the canonical message");
}
