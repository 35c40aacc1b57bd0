//! Accounts, sessions, listings, pagination, identifiers and the error
//! taxonomy.

use veritag::api::ApiResponse;
use veritag::api::CreateOrganizationRequest;
use veritag::api::PaginationRequest;
use veritag::api::paginate;
use veritag::auth::get_role_permissions;
use veritag::auth::Permission;
use veritag::errors::ApiError;
use veritag::ids::Id;
use veritag::ids::parse_u64;
use veritag::model::ProductInput;
use veritag::model::ProductResult;
use veritag::model::UserRole;
use veritag::organizations::create_organization_v2;
use veritag::organizations::find_organizations_by_name;
use veritag::products::create_product;
use veritag::products::update_product;
use veritag::sessions::initialize_user_session;
use veritag::state::State;
use veritag::users::register;
use veritag::users::set_self_role;
use veritag::users::whoami;
use veritag::utils::generate_unique_principal;
use veritag::utils::greet;
use sha2::Digest;

#[test]
fn pagination_cuts_exact_pages() {
    let items: Vec<u32> = (1..=10).collect();
    let request = PaginationRequest {
        page: Some(2),
        limit: Some(3),
    };
    let (page, meta) = paginate(items, &request);
    assert_eq!(page, vec![4, 5, 6]);
    assert_eq!(meta.page, 2);
    assert_eq!(meta.limit, 3);
    assert_eq!(meta.total, 10);
    assert!(meta.has_more);

    let items: Vec<u32> = (1..=10).collect();
    let request = PaginationRequest {
        page: Some(4),
        limit: Some(3),
    };
    let (page, meta) = paginate(items, &request);
    assert_eq!(page, vec![10]);
    assert!(!meta.has_more);

    let items: Vec<u32> = (1..=10).collect();
    let request = PaginationRequest {
        page: Some(5),
        limit: Some(3),
    };
    let (page, _) = paginate(items, &request);
    assert!(page.is_empty());
}

#[test]
fn role_permissions_match_the_table() {
    let admin = get_role_permissions(&UserRole::Admin);
    assert_eq!(admin.len(), 10);
    assert!(admin.contains(&Permission::AdminAccess));

    let brand_owner = get_role_permissions(&UserRole::BrandOwner);
    assert_eq!(brand_owner.len(), 9);
    assert!(!brand_owner.contains(&Permission::AdminAccess));
    assert!(brand_owner.contains(&Permission::WriteProduct));

    let reseller = get_role_permissions(&UserRole::Reseller);
    assert_eq!(reseller.len(), 4);
    assert!(!reseller.contains(&Permission::WriteProduct));
    assert!(reseller.contains(&Permission::ManageVerifications));
}

#[test]
fn error_constructors_pick_their_kind() {
    assert!(matches!(ApiError::not_found("x"), ApiError::NotFound { .. }));
    assert!(matches!(
        ApiError::unauthorized("x"),
        ApiError::Unauthorized { .. }
    ));
    assert!(matches!(
        ApiError::invalid_input("x"),
        ApiError::InvalidInput { .. }
    ));
    assert!(matches!(
        ApiError::internal_error("x"),
        ApiError::InternalError { .. }
    ));
    assert!(matches!(
        ApiError::already_exists("x"),
        ApiError::AlreadyExists { .. }
    ));
    assert!(matches!(
        ApiError::malformed_data("x"),
        ApiError::MalformedData { .. }
    ));
    assert!(matches!(
        ApiError::external_api_error("x"),
        ApiError::ExternalApiError { .. }
    ));
    match ApiError::not_found("missing thing") {
        ApiError::NotFound { details } => assert_eq!(details.message, "missing thing"),
        _ => unreachable!(),
    }
}

#[test]
fn identifiers_come_from_the_documented_digest() {    let parent = Id::from_bytes(vec![4]);
    let id = generate_unique_principal(&parent, 123456);
    assert_eq!(id.bytes.len(), 29);

    let input = format!("{}-{}", hex::encode(&parent.bytes), 123456);
    let digest = sha2::Sha256::digest(input.as_bytes());
    assert_eq!(id.bytes, digest[0..29].to_vec());

    let other = generate_unique_principal(&parent, 123457);
    assert_ne!(id.bytes, other.bytes);
}

#[test]
fn parse_u64_accepts_exactly_decimal() {
    assert_eq!(parse_u64("0"), Some(0));
    assert_eq!(parse_u64("123"), Some(123));
    assert_eq!(parse_u64("18446744073709551615"), Some(u64::MAX));
    assert_eq!(parse_u64("18446744073709551616"), None);
    assert_eq!(parse_u64(""), None);
    assert_eq!(parse_u64("12a"), None);
    assert_eq!(parse_u64("-1"), None);
}

#[test]
fn greeting_is_exact() {
    assert_eq!(greet("World".to_string()), "Hello, World!");
}

#[test]
fn name_filter_is_trimmed_and_case_insensitive() {
    let mut state = State::new();
    let founder = Id::from_bytes(vec![1]);
    register(&mut state, &founder, 10);
    set_self_role(&mut state, &founder, UserRole::BrandOwner, 11);
    create_organization_v2(
        &mut state,
        &founder,
        CreateOrganizationRequest {
            name: "Acme Industries".to_string(),
            description: String::new(),
            metadata: vec![],
        },
        12,
    );
    create_organization_v2(
        &mut state,
        &founder,
        CreateOrganizationRequest {
            name: "Globex".to_string(),
            description: String::new(),
            metadata: vec![],
        },
        13,
    );

    let hits = find_organizations_by_name(&state, "  aCmE ");
    assert_eq!(hits.len(), 1);
    assert_eq!(hits[0].name, "Acme Industries");

    let all = find_organizations_by_name(&state, "");
    assert_eq!(all.len(), 2);
}

#[test]
fn sessions_register_and_pin_the_role() {
    let mut state = State::new();
    let caller = Id::from_bytes(vec![5]);

    // A new caller without a selection cannot register.
    let resp = initialize_user_session(&mut state, &caller, None, 10);
    assert!(matches!(resp.error, Some(ApiError::InvalidInput { .. })));

    // With a selection they are registered under it.
    let resp = initialize_user_session(&mut state, &caller, Some(UserRole::BrandOwner), 11);
    let ctx = resp.data.expect("session established");
    assert!(ctx.is_registered);
    assert_eq!(ctx.role, Some(UserRole::BrandOwner));
    assert!(whoami(&state, &caller).is_some());

    // The role cannot be changed through this flow.
    let resp = initialize_user_session(&mut state, &caller, Some(UserRole::Reseller), 12);
    assert!(matches!(resp.error, Some(ApiError::Unauthorized { .. })));

    // A later session without a selection keeps the role.
    let resp = initialize_user_session(&mut state, &caller, None, 13);
    assert_eq!(resp.data.unwrap().role, Some(UserRole::BrandOwner));
}

#[test]
fn products_cannot_move_between_organizations() {
    let mut state = State::new();
    let founder = Id::from_bytes(vec![1]);
    register(&mut state, &founder, 10);
    set_self_role(&mut state, &founder, UserRole::BrandOwner, 11);
    let org_a = create_organization_v2(
        &mut state,
        &founder,
        CreateOrganizationRequest {
            name: "A".to_string(),
            description: String::new(),
            metadata: vec![],
        },
        12,
    )
    .data
    .unwrap()
    .organization
    .id;
    let org_b = create_organization_v2(
        &mut state,
        &founder,
        CreateOrganizationRequest {
            name: "B".to_string(),
            description: String::new(),
            metadata: vec![],
        },
        13,
    )
    .data
    .unwrap()
    .organization
    .id;

    let product = match create_product(
        &mut state,
        &founder,
        ProductInput {
            name: "Widget".to_string(),
            org_id: org_a.clone(),
            category: String::new(),
            description: String::new(),
            metadata: vec![],
        },
        14,
    ) {
        ProductResult::Product(p) => p,
        _ => panic!("product creation failed"),
    };

    let moved = update_product(
        &mut state,
        &founder,
        &product.id,
        ProductInput {
            name: "Widget".to_string(),
            org_id: org_b,
            category: String::new(),
            description: String::new(),
            metadata: vec![],
        },
        15,
    );
    assert!(matches!(
        moved,
        ProductResult::Error(ApiError::InvalidInput { .. })
    ));
}

#[test]
fn created_product_records_its_first_code_in_metadata() {
    let mut state = State::new();
    let founder = Id::from_bytes(vec![1]);
    register(&mut state, &founder, 10);
    set_self_role(&mut state, &founder, UserRole::BrandOwner, 11);
    let org = create_organization_v2(
        &mut state,
        &founder,
        CreateOrganizationRequest {
            name: "Acme".to_string(),
            description: String::new(),
            metadata: vec![],
        },
        12,
    )
    .data
    .unwrap()
    .organization
    .id;
    let product = match create_product(
        &mut state,
        &founder,
        ProductInput {
            name: "Widget".to_string(),
            org_id: org,
            category: String::new(),
            description: String::new(),
            metadata: vec![],
        },
        13,
    ) {
        ProductResult::Product(p) => p,
        _ => panic!("product creation failed"),
    };

    let keys: Vec<&str> = product.metadata.iter().map(|m| m.key.as_str()).collect();
    assert!(keys.contains(&"initial_unique_code"));
    assert!(keys.contains(&"initial_serial_no"));
    assert!(keys.contains(&"initial_print_version"));
    for m in &product.metadata {
        if m.key == "initial_print_version" {
            assert_eq!(m.value, "1");
        }
        if m.key == "initial_serial_no" {
            // The identifier text is its lowercase hex.
            assert!(m.value.chars().all(|c| c.is_ascii_hexdigit()));
        }
    }
}

#[test]
fn reset_clears_every_collection() {
    let mut state = State::new();
    let founder = Id::from_bytes(vec![1]);
    register(&mut state, &founder, 10);
    set_self_role(&mut state, &founder, UserRole::BrandOwner, 11);
    create_organization_v2(
        &mut state,
        &founder,
        CreateOrganizationRequest {
            name: "Acme".to_string(),
            description: String::new(),
            metadata: vec![],
        },
        12,
    );
    let resp: ApiResponse<veritag::api::ResetStorageResponse> =
        veritag::admin::reset_all_stable_storage(&mut state);
    assert!(resp.data.is_some());
    assert!(whoami(&state, &founder).is_none());
    assert!(find_organizations_by_name(&state, "").is_empty());
}
