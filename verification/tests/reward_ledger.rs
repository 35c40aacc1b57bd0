//! The reward ledger: first-verification bonuses are paid once per
//! (user, product) pair, promotions add their bonus, totals only grow,
//! and invalid scans earn nothing.

use veritag::ids::Id;
use veritag::model::ProductVerificationStatus;
use veritag::rewards::RewardLedger;
use veritag::api::CreateOrganizationRequest;
use veritag::api::VerifyProductEnhancedRequest;
use veritag::model::ProductInput;
use veritag::model::ProductResult;
use veritag::model::ProductSerialNumberResult;
use veritag::model::ProductUniqueCodeResult;
use veritag::model::UserRole;
use veritag::state::State;

fn user() -> Id {
    Id::from_bytes(vec![10])
}

fn product() -> Id {
    Id::from_bytes(vec![20])
}

#[test]
fn first_verification_pays_once() {
    let mut ledger = RewardLedger::new();

    let first = ledger.calculate_verification_rewards(
        &user(),
        &product(),
        &ProductVerificationStatus::FirstVerification,
        100,
    );
    assert!(first.is_first_verification);
    assert_eq!(first.points, 100);

    // Any later call for the same pair reports a repeat, whatever the
    // status argument says.
    let again = ledger.calculate_verification_rewards(
        &user(),
        &product(),
        &ProductVerificationStatus::FirstVerification,
        101,
    );
    assert!(!again.is_first_verification);

    let repeat = ledger.calculate_verification_rewards(
        &user(),
        &product(),
        &ProductVerificationStatus::MultipleVerification,
        102,
    );
    assert!(!repeat.is_first_verification);
    assert_eq!(repeat.points, 10);
}

#[test]
fn promotion_adds_its_bonus() {
    let mut ledger = RewardLedger::new();
    ledger.add_special_promotion(product(), "launch", "golden ticket");

    let rewards = ledger.calculate_verification_rewards(
        &user(),
        &product(),
        &ProductVerificationStatus::FirstVerification,
        100,
    );
    assert_eq!(rewards.points, 150);
    assert_eq!(rewards.special_reward.as_deref(), Some("golden ticket"));
    assert_eq!(
        rewards.reward_description.as_deref(),
        Some("Special reward: golden ticket")
    );

    ledger.remove_special_promotion(&product());
    let other_user = Id::from_bytes(vec![11]);
    let rewards = ledger.calculate_verification_rewards(
        &other_user,
        &product(),
        &ProductVerificationStatus::FirstVerification,
        101,
    );
    assert_eq!(rewards.points, 100);
    assert!(rewards.special_reward.is_none());
}

#[test]
fn totals_accumulate_and_never_decrease() {
    let mut ledger = RewardLedger::new();
    let p2 = Id::from_bytes(vec![21]);

    ledger.calculate_verification_rewards(
        &user(),
        &product(),
        &ProductVerificationStatus::FirstVerification,
        100,
    );
    ledger.calculate_verification_rewards(
        &user(),
        &p2,
        &ProductVerificationStatus::FirstVerification,
        101,
    );
    ledger.calculate_verification_rewards(
        &user(),
        &product(),
        &ProductVerificationStatus::MultipleVerification,
        102,
    );

    let totals = ledger.get_user_rewards(&user()).expect("credited user");
    assert_eq!(totals.total_points, 210);
    assert_eq!(totals.verification_count, 3);
    assert_eq!(totals.first_verifications, 2);
    assert_eq!(totals.last_reward_time, 102);
}

#[test]
fn invalid_scans_earn_nothing_and_leave_no_mark() {
    let mut ledger = RewardLedger::new();
    let rewards = ledger.calculate_verification_rewards(
        &user(),
        &product(),
        &ProductVerificationStatus::Invalid,
        100,
    );
    assert_eq!(rewards.points, 0);
    assert!(rewards.is_first_verification);
    assert!(ledger.get_user_rewards(&user()).is_none());

    // The pair stays unmarked: the next valid scan is still the first.
    assert!(ledger.is_first_verification_for_user(&user(), &product()));
}

#[test]
fn reset_clears_the_ledger() {
    let mut ledger = RewardLedger::new();
    ledger.calculate_verification_rewards(
        &user(),
        &product(),
        &ProductVerificationStatus::FirstVerification,
        100,
    );
    ledger.add_special_promotion(product(), "launch", "bonus");
    ledger.reset_rewards_storage();
    assert!(ledger.get_user_rewards(&user()).is_none());
    assert!(ledger.is_first_verification_for_user(&user(), &product()));
    assert!(ledger.get_special_promotion(&product()).is_none());
}

#[test]
fn promotion_flows_through_a_real_verification() {

    let mut state = State::new();
    let founder = Id::from_bytes(vec![1]);
    veritag::users::register(&mut state, &founder, 10);
    veritag::users::set_self_role(&mut state, &founder, UserRole::BrandOwner, 11);
    let org = veritag::organizations::create_organization_v2(
        &mut state,
        &founder,
        CreateOrganizationRequest {
            name: "Acme".to_string(),
            description: String::new(),
            metadata: vec![],
        },
        12,
    )
    .data
    .unwrap()
    .organization
    .id;
    let product_record = match veritag::products::create_product(
        &mut state,
        &founder,
        ProductInput {
            name: "Widget".to_string(),
            org_id: org,
            category: String::new(),
            description: String::new(),
            metadata: vec![],
        },
        13,
    ) {
        ProductResult::Product(p) => p,
        _ => panic!("product creation failed"),
    };
    let serial = match veritag::products::create_product_serial_number(
        &mut state,
        &founder,
        &product_record.id,
        14,
    ) {
        ProductSerialNumberResult::Record(s) => s,
        _ => panic!("serial creation failed"),
    };
    let code = match veritag::products::print_product_serial_number(
        &mut state,
        &founder,
        &product_record.id,
        &serial.serial_no,
        20,
    ) {
        ProductUniqueCodeResult::Record(rec) => rec.unique_code,
        _ => panic!("print failed"),
    };
    state
        .rewards
        .add_special_promotion(product_record.id.clone(), "launch", "bonus pack");

    let scanner = Id::from_bytes(vec![3]);
    let body = veritag::verification::verify_product_v2(
        &mut state,
        &scanner,
        &VerifyProductEnhancedRequest {
            product_id: product_record.id.clone(),
            serial_no: serial.serial_no.clone(),
            print_version: 1,
            unique_code: code,
            metadata: vec![],
            timestamp: None,
            nonce: None,
        },
        21,
    )
    .data
    .unwrap();
    let rewards = body.rewards.unwrap();
    assert_eq!(rewards.points, 150);
    assert_eq!(rewards.special_reward.as_deref(), Some("bonus pack"));
}

#[test]
fn invalid_scans_earn_nothing_even_with_a_promotion() {
    let mut ledger = RewardLedger::new();
    ledger.add_special_promotion(product(), "launch", "golden ticket");

    let rewards = ledger.calculate_verification_rewards(
        &user(),
        &product(),
        &ProductVerificationStatus::Invalid,
        100,
    );
    assert_eq!(rewards.points, 0);
    assert!(rewards.special_reward.is_none());
    assert!(rewards.reward_description.is_none());
    assert!(ledger.get_user_rewards(&user()).is_none());
    assert!(ledger.is_first_verification_for_user(&user(), &product()));
}
