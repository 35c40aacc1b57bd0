//! The full life of a product unit: organization and keypair, product,
//! serial, print, verify, reprint, stale code, repeat scan — and the
//! listings around it.

use veritag::api::CreateOrganizationRequest;
use veritag::api::RedeemRewardRequest;
use veritag::api::VerifyProductEnhancedRequest;
use veritag::ids::Id;
use veritag::model::ProductInput;
use veritag::model::ProductResult;
use veritag::model::ProductSerialNumberResult;
use veritag::model::ProductUniqueCodeResult;
use veritag::model::ProductVerificationStatus;
use veritag::model::UserRole;
use veritag::organizations::create_organization_v2;
use veritag::products::create_product;
use veritag::products::create_product_serial_number;
use veritag::products::list_product_serial_numbers;
use veritag::products::print_product_serial_number;
use veritag::state::State;
use veritag::users::register;
use veritag::users::set_self_role;
use veritag::verification::list_product_verifications_by_org_id;
use veritag::verification::redeem_product_reward;
use veritag::verification::verify_product_v2;

#[test]
fn organization_to_repeat_scan() {
    let mut state = State::new();
    let founder = Id::from_bytes(vec![1]);
    let customer = Id::from_bytes(vec![2]);

    // Organization O with keypair K.
    register(&mut state, &founder, 10);
    set_self_role(&mut state, &founder, UserRole::BrandOwner, 11);
    let org = create_organization_v2(
        &mut state,
        &founder,
        CreateOrganizationRequest {
            name: "Orchard".to_string(),
            description: String::new(),
            metadata: vec![],
        },
        12,
    )
    .data
    .unwrap()
    .organization
    .id;

    // Product P under O; serial S at version 0.
    let product = match create_product(
        &mut state,
        &founder,
        ProductInput {
            name: "Crate of apples".to_string(),
            org_id: org.clone(),
            category: "food".to_string(),
            description: String::new(),
            metadata: vec![],
        },
        13,
    ) {
        ProductResult::Product(p) => p,
        _ => panic!("product creation failed"),
    };
    let serial = match create_product_serial_number(&mut state, &founder, &product.id, 14) {
        ProductSerialNumberResult::Record(s) => s,
        _ => panic!("serial creation failed"),
    };
    assert_eq!(serial.print_version, 0);

    // print -> version 1, code C1.
    let c1 = match print_product_serial_number(&mut state, &founder, &product.id, &serial.serial_no, 20)
    {
        ProductUniqueCodeResult::Record(rec) => {
            assert_eq!(rec.print_version, 1);
            rec.unique_code
        },
        _ => panic!("print failed"),
    };

    let request = |version: u8, code: &str| VerifyProductEnhancedRequest {
        product_id: product.id.clone(),
        serial_no: serial.serial_no.clone(),
        print_version: version,
        unique_code: code.to_string(),
        metadata: vec![],
        timestamp: None,
        nonce: None,
    };

    // verify C1 at version 1 -> first verification, 100 points.
    let body = verify_product_v2(&mut state, &customer, &request(1, &c1), 21)
        .data
        .unwrap();
    assert_eq!(body.status, ProductVerificationStatus::FirstVerification);
    assert_eq!(body.rewards.unwrap().points, 100);

    // print again -> version 2, code C2.
    let c2 = match print_product_serial_number(&mut state, &founder, &product.id, &serial.serial_no, 22)
    {
        ProductUniqueCodeResult::Record(rec) => {
            assert_eq!(rec.print_version, 2);
            rec.unique_code
        },
        _ => panic!("print failed"),
    };

    // The stale code is dead for good.
    let body = verify_product_v2(&mut state, &customer, &request(1, &c1), 23)
        .data
        .unwrap();
    assert_eq!(body.status, ProductVerificationStatus::Invalid);

    // The fresh code is a repeat scan for this customer: 10 points.
    let body = verify_product_v2(&mut state, &customer, &request(2, &c2), 24)
        .data
        .unwrap();
    assert_eq!(body.status, ProductVerificationStatus::MultipleVerification);
    assert_eq!(body.rewards.unwrap().points, 10);

    // The organization's listing sees both recorded scans, newest first.
    let details = list_product_verifications_by_org_id(&state, &founder, &org);
    assert_eq!(details.len(), 2);
    assert!(details[0].created_at >= details[1].created_at);
    assert_eq!(details[0].created_at, 24);
    assert_eq!(details[0].product_name, "Crate of apples");

    // A repeat-scan record is ineligible for redemption.
    let redeem = redeem_product_reward(
        &mut state,
        &customer,
        &RedeemRewardRequest {
            serial_no: serial.serial_no.clone(),
            unique_code: c2.clone(),
            wallet_address: "wallet".to_string(),
        },
        30,
    )
    .data
    .unwrap();
    assert!(!redeem.success);
    assert!(redeem.transaction_id.is_none());

    // The serial listings agree: product creation minted one initial
    // serial (printed once), and S is at version 2.
    let all = match list_product_serial_numbers(&state, None, None) {
        Ok(v) => v,
        Err(_) => panic!("listing failed"),
    };
    assert_eq!(all.len(), 2);
    let by_org = match list_product_serial_numbers(&state, Some(org.clone()), None) {
        Ok(v) => v,
        Err(_) => panic!("listing failed"),
    };
    assert_eq!(by_org.len(), 2);
    let by_product = match list_product_serial_numbers(&state, Some(org), Some(product.id.clone()))
    {
        Ok(v) => v,
        Err(_) => panic!("listing failed"),
    };
    assert_eq!(by_product.len(), 2);
    let s_entry = by_product
        .iter()
        .find(|p| p.serial_no.bytes == serial.serial_no.bytes)
        .expect("S is listed");
    assert_eq!(s_entry.print_version, 2);
}
