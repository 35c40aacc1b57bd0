//! Reseller challenge/response codes: a code lives five minutes, is
//! bound to its context, and resolves its parties; the status set is
//! closed.

use veritag::api::CreateOrganizationRequest;
use veritag::api::GenerateResellerUniqueCodeRequest;
use veritag::api::ResellerVerificationStatus;
use veritag::api::VerifyResellerRequest;
use veritag::ids::Id;
use veritag::model::ResellerInput;
use veritag::model::UserRole;
use veritag::organizations::create_organization_v2;
use veritag::resellers::find_resellers_by_name_or_id;
use veritag::resellers::generate_reseller_unique_code_v2;
use veritag::resellers::register_as_reseller_v2;
use veritag::resellers::verify_reseller_v2;
use veritag::state::State;
use veritag::users::register;
use veritag::users::set_self_role;
use veritag::model::CompleteResellerProfileRequest;
use veritag::sessions::complete_reseller_profile;
use veritag::sessions::get_my_reseller_certification;
use veritag::sessions::get_navigation_context;

fn setup_reseller(state: &mut State) -> Id {
    let founder = Id::from_bytes(vec![1]);
    register(state, &founder, 10);
    set_self_role(state, &founder, UserRole::BrandOwner, 11);
    let org_resp = create_organization_v2(
        state,
        &founder,
        CreateOrganizationRequest {
            name: "Acme".to_string(),
            description: "maker of things".to_string(),
            metadata: vec![],
        },
        12,
    );
    let org_id = org_resp.data.expect("organization created").organization.id;

    let reseller_user = Id::from_bytes(vec![2]);
    register(state, &reseller_user, 13);
    let resp = register_as_reseller_v2(
        state,
        &reseller_user,
        ResellerInput {
            org_id,
            name: "Best Reseller".to_string(),
            metadata: vec![],
            ecommerce_urls: vec![],
        },
        14,
    );
    assert!(resp.data.is_some(), "reseller registration succeeds");

    let found = find_resellers_by_name_or_id(state, "best");
    assert_eq!(found.len(), 1);
    found[0].id.clone()
}

fn verify_at(
    state: &State,
    reseller_id: &Id,
    code: &str,
    ts: u64,
    context: Option<&str>,
    now: u64,
) -> ResellerVerificationStatus {
    let resp = verify_reseller_v2(
        state,
        &VerifyResellerRequest {
            reseller_id: reseller_id.clone(),
            unique_code: code.to_string(),
            timestamp: ts,
            context: context.map(|c| c.to_string()),
        },
        now,
    );
    resp.data.expect("always a data result").status
}

#[test]
fn code_lives_five_minutes_with_its_context() {
    let mut state = State::new();
    let reseller_id = setup_reseller(&mut state);

    let generated = generate_reseller_unique_code_v2(
        &state,
        GenerateResellerUniqueCodeRequest {
            reseller_id: reseller_id.clone(),
            context: Some("X".to_string()),
        },
        5000,
    )
    .data
    .expect("code generated");
    assert_eq!(generated.timestamp, 5000);
    let code = generated.unique_code;

    // Within the window, same context: success.
    assert_eq!(
        verify_at(&state, &reseller_id, &code, 5000, Some("X"), 5299),
        ResellerVerificationStatus::Success
    );
    // One second past the window: expired.
    assert_eq!(
        verify_at(&state, &reseller_id, &code, 5000, Some("X"), 5301),
        ResellerVerificationStatus::ExpiredCode
    );
    // The wrong context breaks the signature binding.
    assert_eq!(
        verify_at(&state, &reseller_id, &code, 5000, Some("Y"), 5299),
        ResellerVerificationStatus::InvalidCode
    );
    // A missing context is a different message too.
    assert_eq!(
        verify_at(&state, &reseller_id, &code, 5000, None, 5299),
        ResellerVerificationStatus::InvalidCode
    );
}

#[test]
fn clock_skew_and_tampering_are_invalid() {
    let mut state = State::new();
    let reseller_id = setup_reseller(&mut state);
    let generated = generate_reseller_unique_code_v2(
        &state,
        GenerateResellerUniqueCodeRequest {
            reseller_id: reseller_id.clone(),
            context: None,
        },
        5000,
    )
    .data
    .unwrap();

    // A timestamp more than a minute in the future is refused.
    assert_eq!(
        verify_at(&state, &reseller_id, &generated.unique_code, 5061, None, 5000),
        ResellerVerificationStatus::InvalidCode
    );
    // A tampered code fails the signature.
    let mut tampered: Vec<char> = generated.unique_code.chars().collect();
    tampered[0] = if tampered[0] == '0' { '1' } else { '0' };
    let tampered: String = tampered.into_iter().collect();
    assert_eq!(
        verify_at(&state, &reseller_id, &tampered, 5000, None, 5100),
        ResellerVerificationStatus::InvalidCode
    );
}

#[test]
fn missing_parties_get_their_own_statuses() {
    let mut state = State::new();
    let _ = setup_reseller(&mut state);
    let ghost_reseller = Id::from_bytes(vec![42]);
    assert_eq!(
        verify_at(&state, &ghost_reseller, "abcd", 5000, None, 5100),
        ResellerVerificationStatus::ResellerNotFound
    );

    let resp = generate_reseller_unique_code_v2(
        &state,
        GenerateResellerUniqueCodeRequest {
            reseller_id: ghost_reseller,
            context: None,
        },
        5000,
    );
    assert!(resp.data.is_none());
    assert!(matches!(
        resp.error,
        Some(veritag::errors::ApiError::NotFound { .. })
    ));
}

#[test]
fn completed_profile_certifies_and_shows_context() {

    let mut state = State::new();
    let reseller_id = setup_reseller(&mut state);
    let _ = reseller_id;
    let reseller_user = Id::from_bytes(vec![2]);
    let org_id = find_resellers_by_name_or_id(&state, "best")[0].org_id.clone();

    let resp = complete_reseller_profile(
        &mut state,
        &reseller_user,
        CompleteResellerProfileRequest {
            target_organization_id: org_id,
            reseller_name: "Best Reseller".to_string(),
            contact_email: Some("sales@example.test".to_string()),
            contact_phone: None,
            ecommerce_urls: vec![],
            additional_metadata: None,
        },
        100,
    );
    let ctx = resp.data.expect("profile completed");
    let details = ctx.reseller_details.expect("reseller context present");
    assert!(details.is_profile_complete_and_verified);
    let code = details.certification_code.expect("certification code minted");
    assert!(code.starts_with("CERT-"));
    assert_eq!(details.certification_timestamp, Some(100));

    let page = get_my_reseller_certification(&state, &reseller_user)
        .data
        .expect("certification page served");
    assert_eq!(page.certification_code, code);
    assert_eq!(page.certification_timestamp, 100);
    assert_eq!(page.associated_organization.name, "Acme");

    let nav = get_navigation_context(&state, &reseller_user)
        .data
        .expect("navigation context served");
    assert_eq!(nav.current_organization_name.as_deref(), Some("Acme"));
}
