//! Session and context flows: sign-in (with one-time role selection and
//! session-key registration), the auth context handed to clients, the
//! brand-owner organization flows, the reseller profile completion and
//! certification page, and the navigation header.

use vstd::prelude::*;

verus! {

use crate::api::ApiResponse;
use crate::crypto::gen_secret_key;
use crate::errors::ApiError;
use crate::hexstr::hex_encode;
use crate::hexstr::hex_of;
use crate::hexstr::lemma_hex_of_is_hex_seq;
use crate::idmap::IdMap;
use crate::ids::Id;
use crate::model::AuthContextResponse;
use crate::model::BrandOwnerContextDetails;
use crate::model::clone_ids;
use crate::model::clone_metadatas;
use crate::model::clone_opt_id;
use crate::model::clone_opt_string;
use crate::model::CompleteResellerProfileRequest;
use crate::model::CreateOrganizationWithOwnerContextRequest;
use crate::model::ids_contain;
use crate::model::ids_contains;
use crate::model::NavigationContextResponse;
use crate::model::Organization;
use crate::model::OrganizationContextResponse;
use crate::model::OrganizationPublic;
use crate::model::OrganizationPublicV;
use crate::model::org_public_of;
use crate::model::Reseller;
use crate::model::ResellerCertificationPageContext;
use crate::model::ResellerContextDetails;
use crate::model::ResellerPublic;
use crate::model::User;
use crate::model::UserPublic;
use crate::model::UserRole;
use crate::model::UserV;
use crate::organizations::created_org_matches;
use crate::resellers::find_reseller_by_user;
use crate::resellers::get_reseller_by_user_id;
use crate::state::State;
use crate::utils::generate_unique_principal;
use crate::utils::unique_id_of;

/// The public views of the organizations an identifier list resolves to,
/// in list order, skipping unknown identifiers.
pub open spec fn resolve_orgs(orgs: IdMap<Organization>, ids: Seq<Id>) -> Seq<OrganizationPublicV>
    decreases ids.len(),
{
    if ids.len() == 0 {
        Seq::empty()
    } else {
        (match orgs.get(ids[0]@) {
            Some(o) => seq![org_public_of(o@)],
            None => Seq::empty(),
        }) + resolve_orgs(orgs, ids.drop_first())
    }
}

/// Resolving one more identifier appends its organization when known.
proof fn lemma_resolve_orgs_take_step(orgs: IdMap<Organization>, ids: Seq<Id>, i: int)
    requires
        0 <= i < ids.len(),
    ensures
        resolve_orgs(orgs, ids.take(i + 1)) == resolve_orgs(orgs, ids.take(i)) + (match orgs.get(
            ids[i]@,
        ) {
            Some(o) => seq![org_public_of(o@)],
            None => Seq::<OrganizationPublicV>::empty(),
        }),
    decreases i,
{
    if i == 0 {
        assert(ids.take(1)[0] == ids[0]);
        assert(ids.take(1).drop_first() =~= Seq::<Id>::empty());
        assert(resolve_orgs(orgs, Seq::<Id>::empty()) == Seq::<OrganizationPublicV>::empty());
        assert(ids.take(0) =~= Seq::<Id>::empty());
        assert(resolve_orgs(orgs, ids.take(1)) =~= resolve_orgs(orgs, ids.take(0)) + (
        match orgs.get(ids[0]@) {
            Some(o) => seq![org_public_of(o@)],
            None => Seq::<OrganizationPublicV>::empty(),
        }));
    } else {
        assert(ids.take(i + 1)[0] == ids[0]);
        assert(ids.take(i)[0] == ids[0]);
        assert(ids.take(i + 1).drop_first() =~= ids.drop_first().take(i));
        assert(ids.take(i).drop_first() =~= ids.drop_first().take(i - 1));
        assert(ids.drop_first()[i - 1] == ids[i]);
        lemma_resolve_orgs_take_step(orgs, ids.drop_first(), i - 1);
        assert(resolve_orgs(orgs, ids.take(i + 1)) =~= resolve_orgs(orgs, ids.take(i)) + (
        match orgs.get(ids[i]@) {
            Some(o) => seq![org_public_of(o@)],
            None => Seq::<OrganizationPublicV>::empty(),
        }));
    }
}

/// Resolves an identifier list to the public organizations it names.
fn resolve_orgs_exec(orgs: &IdMap<Organization>, ids: &Vec<Id>) -> (r: Vec<OrganizationPublic>)
    requires
        orgs.wf(),
    ensures
        r.deep_view() == resolve_orgs(*orgs, ids@),
{
    let mut result: Vec<OrganizationPublic> = Vec::new();
    let mut i: usize = 0;
    proof {
        assert(ids@.take(0) =~= Seq::<Id>::empty());
        assert(result.deep_view() =~~= resolve_orgs(*orgs, ids@.take(0)));
    }
    while i < ids.len()
        invariant
            orgs.wf(),
            i <= ids@.len(),
            result.deep_view() =~~= resolve_orgs(*orgs, ids@.take(i as int)),
        decreases ids@.len() - i,
    {
        let ghost prev = result.deep_view();
        proof {
            lemma_resolve_orgs_take_step(*orgs, ids@, i as int);
        }
        match orgs.get_ref(&ids[i]) {
            Some(o) => {
                let ghost prevv = result@;
                result.push(OrganizationPublic::from(o.clone()));
                proof {
                    assert(result@.len() == prevv.len() + 1);
                    assert forall|j: int| 0 <= j < result@.len() implies result.deep_view()[j]
                        == resolve_orgs(*orgs, ids@.take(i + 1))[j] by {
                        assert(result.deep_view()[j] == result@[j]@);
                        if j < prevv.len() {
                            assert(result@[j] == prevv[j]);
                            assert(result@[j]@ == prev[j]);
                        }
                    }
                    assert(result.deep_view() =~~= resolve_orgs(*orgs, ids@.take(i + 1)));
                }
            },
            None => {
                proof {
                    assert(result.deep_view() =~~= resolve_orgs(*orgs, ids@.take(i + 1)));
                }
            },
        }
        i = i + 1;
    }
    proof {
        assert(ids@.take(ids@.len() as int) =~= ids@);
    }
    result
}

/// The public face a user record projects to.
fn user_public_of(user: &User) -> (r: UserPublic)
    ensures
        r.id@ == user.id@,
        r.first_name.deep_view() == user.first_name.deep_view(),
        r.last_name.deep_view() == user.last_name.deep_view(),
        r.email.deep_view() == user.email.deep_view(),
        r.created_at == user.created_at,
{
    UserPublic {
        id: user.id.clone(),
        first_name: clone_opt_string(&user.first_name),
        last_name: clone_opt_string(&user.last_name),
        email: clone_opt_string(&user.email),
        created_at: user.created_at,
    }
}

/// Assembles the auth context a signed-in user sees: their public face,
/// their role, and the role-specific details — a brand owner's resolved
/// organizations and active organization, or a reseller's profile and
/// certification state.
pub fn build_auth_context_response(state: &State, user: &User) -> (r: AuthContextResponse)
    requires
        state.wf(),
    ensures
        r.is_registered,
        r.role == user.user_role,
        r.user matches Some(up) && up.id@ == user.id@ && up.email.deep_view()
            == user.email.deep_view() && up.created_at == user.created_at,
        (r.brand_owner_details is Some) == (user.user_role == Some(UserRole::BrandOwner)),
        r.brand_owner_details matches Some(d) ==> {
            let list = resolve_orgs(state.organizations, user.org_ids@);
            &&& d.has_organizations == (list.len() > 0)
            &&& (list.len() > 0 ==> (d.organizations matches Some(v) && v.deep_view() == list))
            &&& (list.len() == 0 ==> d.organizations is None)
            &&& match user.active_org_id {
                Some(aid) => match state.organizations.get(aid@) {
                    Some(o) => d.active_organization matches Some(a) && a@ == org_public_of(o@),
                    None => d.active_organization is None,
                },
                None => d.active_organization is None,
            }
        },
        (r.reseller_details is Some) == (user.user_role == Some(UserRole::Reseller)),
        r.reseller_details matches Some(d) ==> {
            match find_reseller_by_user(state.resellers.entries@, user.id@) {
                Some(res) => {
                    &&& d.is_profile_complete_and_verified == res.is_verified
                    &&& d.certification_code.deep_view() == res.certification_code.deep_view()
                    &&& d.certification_timestamp == res.certification_timestamp
                    &&& match state.organizations.get(res.org_id@) {
                        Some(o) => d.associated_organization matches Some(a) && a@
                            == org_public_of(o@),
                        None => d.associated_organization is None,
                    }
                },
                None => !d.is_profile_complete_and_verified && d.associated_organization is None
                    && d.certification_code is None && d.certification_timestamp is None,
            }
        },
{
    let user_public = user_public_of(user);

    let is_brand_owner = match user.user_role {
        Some(UserRole::BrandOwner) => true,
        _ => false,
    };
    let brand_owner_details = if is_brand_owner {
        let org_list = resolve_orgs_exec(&state.organizations, &user.org_ids);
        let has_organizations = org_list.len() > 0;
        let active = match &user.active_org_id {
            Some(aid) => match state.organizations.get_ref(aid) {
                Some(o) => Some(OrganizationPublic::from(o.clone())),
                None => None,
            },
            None => None,
        };
        Some(
            BrandOwnerContextDetails {
                has_organizations,
                organizations: if has_organizations {
                    Some(org_list)
                } else {
                    None
                },
                active_organization: active,
            },
        )
    } else {
        None
    };

    let is_reseller = match user.user_role {
        Some(UserRole::Reseller) => true,
        _ => false,
    };
    let reseller_details = if is_reseller {
        match get_reseller_by_user_id(&state.resellers, &user.id) {
            Some(res) => {
                let associated = match state.organizations.get_ref(&res.org_id) {
                    Some(o) => Some(OrganizationPublic::from(o.clone())),
                    None => None,
                };
                Some(
                    ResellerContextDetails {
                        is_profile_complete_and_verified: res.is_verified,
                        associated_organization: associated,
                        certification_code: clone_opt_string(&res.certification_code),
                        certification_timestamp: res.certification_timestamp,
                    },
                )
            },
            None => Some(
                ResellerContextDetails {
                    is_profile_complete_and_verified: false,
                    associated_organization: None,
                    certification_code: None,
                    certification_timestamp: None,
                },
            ),
        }
    } else {
        None
    };

    AuthContextResponse {
        user: Some(user_public),
        is_registered: true,
        role: user.user_role,
        brand_owner_details,
        reseller_details,
    }
}

/// Establishes the caller's session: a new caller is registered with the
/// selected role (which must be present); an existing caller without a
/// role has the selection applied; a role once set cannot be changed
/// through this flow; and the session principal is recorded among the
/// user's session keys.
pub fn initialize_user_session(
    state: &mut State,
    caller: &Id,
    selected_role: Option<UserRole>,
    now: u64,
) -> (r: ApiResponse<AuthContextResponse>)
    requires
        old(state).wf(),
    ensures
        final(state).wf(),
        final(state).organizations == old(state).organizations,
        final(state).products == old(state).products,
        final(state).resellers == old(state).resellers,
        match old(state).users.get(caller@) {
            None => match selected_role {
                None => r.error matches Some(e) && e is InvalidInput && *final(state) == *old(
                    state,
                ),
                Some(role) => {
                    &&& r.data matches Some(ctx) && ctx.is_registered && ctx.role == Some(role)
                    &&& final(state).users.get(caller@) matches Some(u2) && u2@.user_role == Some(
                        role,
                    ) && u2@.id == caller@ && u2@.session_keys == seq![caller@]
                    &&& forall|k2: Seq<u8>|
                        k2 != caller@ ==> final(state).users.get(k2) == old(state).users.get(k2)
                },
            },
            Some(u) => {
                if u@.user_role is None && selected_role is None {
                    r.error matches Some(e) && e is InvalidInput && *final(state) == *old(state)
                } else if u@.user_role is Some && selected_role is Some && u@.user_role
                    != selected_role {
                    r.error matches Some(e) && e is Unauthorized && *final(state) == *old(state)
                } else {
                    let role = if u@.user_role is Some {
                        u@.user_role
                    } else {
                        selected_role
                    };
                    &&& r.data matches Some(ctx) && ctx.is_registered && ctx.role == role
                    &&& final(state).users.get(caller@) matches Some(u2) && u2@.user_role == role
                        && u2@.id == u@.id && (ids_contain(u2@.session_keys, caller@))
                    &&& forall|k2: Seq<u8>|
                        k2 != caller@ ==> final(state).users.get(k2) == old(state).users.get(k2)
                }
            },
        },
{
    let existing = match state.users.get_ref(caller) {
        Some(u) => Some(u.clone()),
        None => None,
    };
    let final_user: User = match existing {
        Some(u) => {
            let role: Option<UserRole> = match (u.user_role, selected_role) {
                (None, Some(role)) => Some(role),
                (None, None) => {
                    return ApiResponse::error(
                        ApiError::invalid_input(
                            "A role must be selected to complete registration",
                        ),
                    );
                },
                (Some(have), Some(want)) => {
                    if !(have == want) {
                        return ApiResponse::error(
                            ApiError::unauthorized(
                                "User role has already been set and cannot be changed",
                            ),
                        );
                    }
                    Some(have)
                },
                (Some(have), None) => Some(have),
            };
            let mut session_keys = clone_ids(&u.session_keys);
            let had_key = ids_contains(&session_keys, caller);
            if !had_key {
                session_keys.push(caller.clone());
                proof {
                    let dv = session_keys.deep_view();
                    assert(dv[dv.len() - 1] == caller@);
                }
            }
            let updated = User {
                user_role: role,
                session_keys,
                updated_at: now,
                updated_by: caller.clone(),
                id: u.id.clone(),
                is_principal: u.is_principal,
                is_enabled: u.is_enabled,
                org_ids: clone_ids(&u.org_ids),
                active_org_id: clone_opt_id(&u.active_org_id),
                first_name: clone_opt_string(&u.first_name),
                last_name: clone_opt_string(&u.last_name),
                phone_no: clone_opt_string(&u.phone_no),
                email: clone_opt_string(&u.email),
                detail_meta: clone_metadatas(&u.detail_meta),
                created_at: u.created_at,
                created_by: u.created_by.clone(),
            };
            state.users.insert(caller.clone(), updated.clone());
            updated
        },
        None => {
            let role = match selected_role {
                Some(role) => role,
                None => {
                    return ApiResponse::error(
                        ApiError::invalid_input("A role must be selected for new user registration"),
                    );
                },
            };
            let mut session_keys: Vec<Id> = Vec::new();
            session_keys.push(caller.clone());
            proof {
                assert(session_keys.deep_view() =~= seq![caller@]);
            }
            let new_user = User {
                id: caller.clone(),
                user_role: Some(role),
                is_principal: false,
                is_enabled: true,
                org_ids: Vec::new(),
                active_org_id: None,
                first_name: None,
                last_name: None,
                phone_no: None,
                email: None,
                detail_meta: Vec::new(),
                session_keys,
                created_at: now,
                created_by: caller.clone(),
                updated_at: now,
                updated_by: caller.clone(),
            };
            state.users.insert(caller.clone(), new_user.clone());
            new_user
        },
    };
    let context = build_auth_context_response(state, &final_user);
    ApiResponse::success(context)
}

/// The caller's auth context: their assembled context when registered, a
/// bare "not registered" context otherwise. Reads only.
pub fn get_auth_context(state: &State, caller: &Id) -> (r: ApiResponse<AuthContextResponse>)
    requires
        state.wf(),
    ensures
        r.error is None,
        match state.users.get(caller@) {
            Some(u) => r.data matches Some(ctx) && ctx.is_registered && ctx.role == u.user_role,
            None => r.data matches Some(ctx) && !ctx.is_registered && ctx.user is None
                && ctx.role is None,
        },
{
    match state.users.get_ref(caller) {
        Some(u) => {
            let user = u.clone();
            ApiResponse::success(build_auth_context_response(state, &user))
        },
        None => ApiResponse::success(
            AuthContextResponse {
                user: None,
                is_registered: false,
                role: None,
                brand_owner_details: None,
                reseller_details: None,
            },
        ),
    }
}

/// Creates an organization for a signed-in brand owner, associates it
/// with them and makes it their active organization. Only brand owners
/// may use this flow.
pub fn create_organization_for_owner(
    state: &mut State,
    caller: &Id,
    request: CreateOrganizationWithOwnerContextRequest,
    now: u64,
) -> (r: ApiResponse<OrganizationContextResponse>)
    requires
        old(state).wf(),
    ensures
        final(state).wf(),
        final(state).products == old(state).products,
        final(state).resellers == old(state).resellers,
        match old(state).users.get(caller@) {
            None => r.error matches Some(e) && e is Unauthorized && *final(state) == *old(state),
            Some(u) => {
                if u@.user_role != Some(UserRole::BrandOwner) {
                    r.error matches Some(e) && e is Unauthorized && *final(state) == *old(state)
                } else {
                    let oid = unique_id_of(seq![4u8], now);
                    if old(state).organizations.get(oid) is Some {
                        r.error matches Some(e) && e is InternalError && *final(state) == *old(
                            state,
                        )
                    } else {
                        &&& r.data matches Some(resp) && resp.organization@.id == oid
                            && resp.organization@.name == request.name@
                        &&& (final(state).organizations.get(oid) matches Some(o)
                            && created_org_matches(
                            o@,
                            oid,
                            request.name@,
                            request.description@,
                            request.metadata.deep_view(),
                            caller@,
                            now,
                        ) && r.data->0.organization@ == org_public_of(o@))
                        &&& (final(state).users.get(caller@) matches Some(u2) && ids_contain(
                            u2@.org_ids,
                            oid,
                        ) && u2@.active_org_id == Some(oid))
                        &&& forall|k2: Seq<u8>|
                            k2 != oid ==> final(state).organizations.get(k2) == old(
                                state,
                            ).organizations.get(k2)
                        &&& forall|k2: Seq<u8>|
                            k2 != caller@ ==> final(state).users.get(k2) == old(state).users.get(
                                k2,
                            )
                    }
                }
            },
        },
{
    let u = match state.users.get_ref(caller) {
        Some(u) => u.clone(),
        None => {
            return ApiResponse::error(ApiError::unauthorized("User not registered"));
        },
    };
    let is_brand_owner = match u.user_role {
        Some(UserRole::BrandOwner) => true,
        _ => false,
    };
    if !is_brand_owner {
        return ApiResponse::error(
            ApiError::unauthorized("Only Brand Owners can create organizations"),
        );
    }
    let org_id = generate_unique_principal(&Id::anonymous(), now);
    if state.organizations.get_ref(&org_id).is_some() {
        return ApiResponse::error(ApiError::internal_error("Identifier collision"));
    }
    let secret = gen_secret_key();
    let private_key = hex_encode(&secret);
    proof {
        lemma_hex_of_is_hex_seq(secret@);
        crate::hexstr::lemma_hex_round_trip(secret@);
    }
    let organization = Organization {
        id: org_id.clone(),
        name: request.name,
        description: request.description,
        private_key,
        metadata: request.metadata,
        created_at: now,
        created_by: caller.clone(),
        updated_at: now,
        updated_by: caller.clone(),
    };
    let org_public = OrganizationPublic::from(organization.clone());
    state.organizations.insert(org_id.clone(), organization);

    let mut org_ids = clone_ids(&u.org_ids);
    if !ids_contains(&org_ids, &org_id) {
        org_ids.push(org_id.clone());
        proof {
            let dv = org_ids.deep_view();
            assert(dv[dv.len() - 1] == org_id@);
        }
    }
    let updated = User {
        org_ids,
        active_org_id: Some(org_id.clone()),
        updated_at: now,
        updated_by: caller.clone(),
        id: u.id,
        user_role: u.user_role,
        is_principal: u.is_principal,
        is_enabled: u.is_enabled,
        first_name: u.first_name,
        last_name: u.last_name,
        phone_no: u.phone_no,
        email: u.email,
        detail_meta: u.detail_meta,
        session_keys: u.session_keys,
        created_at: u.created_at,
        created_by: u.created_by,
    };
    let ctx_user = updated.clone();
    state.users.insert(caller.clone(), updated);

    let user_auth_context = build_auth_context_response(state, &ctx_user);
    ApiResponse::success(
        OrganizationContextResponse { organization: org_public, user_auth_context },
    )
}

/// Makes one of a brand owner's organizations the active one. Only brand
/// owners associated with the organization may select it, and it must
/// exist.
pub fn select_active_organization(state: &mut State, caller: &Id, org_id: &Id, now: u64) -> (r:
    ApiResponse<AuthContextResponse>)
    requires
        old(state).wf(),
    ensures
        final(state).wf(),
        final(state).organizations == old(state).organizations,
        final(state).products == old(state).products,
        final(state).resellers == old(state).resellers,
        match old(state).users.get(caller@) {
            None => r.error matches Some(e) && e is Unauthorized && *final(state) == *old(state),
            Some(u) => {
                if u@.user_role != Some(UserRole::BrandOwner) {
                    r.error matches Some(e) && e is Unauthorized && *final(state) == *old(state)
                } else if !ids_contain(u@.org_ids, org_id@) {
                    r.error matches Some(e) && e is Unauthorized && *final(state) == *old(state)
                } else if old(state).organizations.get(org_id@) is None {
                    r.error matches Some(e) && e is NotFound && *final(state) == *old(state)
                } else {
                    &&& r.data matches Some(ctx) && ctx.is_registered && ctx.role == Some(
                        UserRole::BrandOwner,
                    )
                    &&& (final(state).users.get(caller@) matches Some(u2) && u2@ == UserV {
                        active_org_id: Some(org_id@),
                        updated_at: now,
                        updated_by: caller@,
                        ..u@
                    })
                    &&& forall|k2: Seq<u8>|
                        k2 != caller@ ==> final(state).users.get(k2) == old(state).users.get(k2)
                }
            },
        },
{
    let u = match state.users.get_ref(caller) {
        Some(u) => u.clone(),
        None => {
            return ApiResponse::error(ApiError::unauthorized("User not registered"));
        },
    };
    let is_brand_owner = match u.user_role {
        Some(UserRole::BrandOwner) => true,
        _ => false,
    };
    if !is_brand_owner {
        return ApiResponse::error(
            ApiError::unauthorized("Only Brand Owners can select an active organization"),
        );
    }
    if !ids_contains(&u.org_ids, org_id) {
        return ApiResponse::error(
            ApiError::unauthorized("User is not associated with this organization"),
        );
    }
    if state.organizations.get_ref(org_id).is_none() {
        return ApiResponse::error(ApiError::not_found("Organization not found"));
    }
    let updated = User {
        active_org_id: Some(org_id.clone()),
        updated_at: now,
        updated_by: caller.clone(),
        id: u.id,
        user_role: u.user_role,
        is_principal: u.is_principal,
        is_enabled: u.is_enabled,
        org_ids: u.org_ids,
        first_name: u.first_name,
        last_name: u.last_name,
        phone_no: u.phone_no,
        email: u.email,
        detail_meta: u.detail_meta,
        session_keys: u.session_keys,
        created_at: u.created_at,
        created_by: u.created_by,
    };
    let ctx_user = updated.clone();
    proof {
        assert(updated@ =~= UserV {
            active_org_id: Some(org_id@),
            updated_at: now,
            updated_by: caller@,
            ..old(state).users.get(caller@)->0@
        });
    }
    state.users.insert(caller.clone(), updated);
    let ctx = build_auth_context_response(state, &ctx_user);
    ApiResponse::success(ctx)
}

/// Lists a brand owner's organizations, resolved in association order.
pub fn get_my_organizations(state: &State, caller: &Id) -> (r: ApiResponse<
    Vec<OrganizationPublic>,
>)
    requires
        state.wf(),
    ensures
        match state.users.get(caller@) {
            None => r.error matches Some(e) && e is Unauthorized,
            Some(u) => {
                if u.user_role != Some(UserRole::BrandOwner) {
                    r.error matches Some(e) && e is Unauthorized
                } else {
                    r.data matches Some(v) && v.deep_view() == resolve_orgs(
                        state.organizations,
                        u.org_ids@,
                    )
                }
            },
        },
{
    let u = match state.users.get_ref(caller) {
        Some(u) => u,
        None => {
            return ApiResponse::error(ApiError::unauthorized("User not registered"));
        },
    };
    let is_brand_owner = match u.user_role {
        Some(UserRole::BrandOwner) => true,
        _ => false,
    };
    if !is_brand_owner {
        return ApiResponse::error(
            ApiError::unauthorized("Only Brand Owners can list their organizations"),
        );
    }
    ApiResponse::success(resolve_orgs_exec(&state.organizations, &u.org_ids))
}

} // verus!

verus! {

use vstd::string::StrSliceExecFns;

/// The first five characters of a sequence, or all of it when shorter.
pub open spec fn first5(s: Seq<char>) -> Seq<char> {
    if s.len() < 5 {
        s
    } else {
        s.take(5)
    }
}

/// The certification code minted for a reseller under an organization:
/// `CERT-` then five characters of each party's identifier text.
pub open spec fn cert_code_of(org_id: Seq<u8>, rid: Seq<u8>) -> Seq<char> {
    "CERT-"@ + first5(hex_of(org_id)) + "-"@ + first5(hex_of(rid))
}

/// Takes the first five characters of an identifier's hex text.
fn first5_of_id(id: &Id) -> (r: String)
    ensures
        r@ == first5(hex_of(id@)),
{
    let text = hex_encode(&id.bytes);
    proof {
        lemma_hex_of_is_hex_seq(id@);
    }
    let n = text.as_str().unicode_len();
    let k: usize = if n < 5 {
        n
    } else {
        5
    };
    let slice = text.as_str().substring_char(0, k);
    proof {
        if hex_of(id@).len() >= 5 {
            assert(slice@ =~= first5(hex_of(id@)));
        } else {
            assert(slice@ =~= first5(hex_of(id@)));
        }
    }
    slice.to_owned()
}

/// Builds the certification code for an organization and reseller pair.
fn build_cert_code(org_id: &Id, rid: &Id) -> (r: String)
    ensures
        r@ == cert_code_of(org_id@, rid@),
{
    let mut code = String::from_str("CERT-");
    let a = first5_of_id(org_id);
    code.append(a.as_str());
    code.append("-");
    let b = first5_of_id(rid);
    code.append(b.as_str());
    assert(code@ =~= cert_code_of(org_id@, rid@));
    code
}

/// Completes (or refreshes) the caller's reseller profile against a
/// target organization: the record is marked verified, stamped with a
/// fresh certification code bound to both identifiers, and keyed to the
/// organization's verification key; the caller's association is replaced
/// by the target organization.
pub fn complete_reseller_profile(
    state: &mut State,
    caller: &Id,
    request: CompleteResellerProfileRequest,
    now: u64,
) -> (r: ApiResponse<AuthContextResponse>)
    requires
        old(state).wf(),
    ensures
        final(state).wf(),
        final(state).organizations == old(state).organizations,
        final(state).products == old(state).products,
        match old(state).users.get(caller@) {
            None => r.error matches Some(e) && e is Unauthorized && *final(state) == *old(state),
            Some(u) => {
                if u@.user_role != Some(UserRole::Reseller) {
                    r.error matches Some(e) && e is Unauthorized && *final(state) == *old(state)
                } else {
                    match old(state).organizations.get(request.target_organization_id@) {
                        None => r.error matches Some(e) && e is NotFound && *final(state) == *old(
                            state,
                        ),
                        Some(org) => {
                            let existing = find_reseller_by_user(
                                old(state).resellers.entries@,
                                caller@,
                            );
                            let rid = match existing {
                                Some(res) => res.id@,
                                None => unique_id_of(seq![4u8], now),
                            };
                            let sk = crate::hexstr::hex_decoded(org.private_key@);
                            &&& r.data matches Some(ctx) && ctx.is_registered && ctx.role == Some(
                                UserRole::Reseller,
                            )
                            &&& (final(state).resellers.get(rid) matches Some(res2)
                                && res2@.id == rid && res2@.user_id == caller@ && res2@.org_id
                                == request.target_organization_id@ && res2@.name
                                == request.reseller_name@ && res2@.is_verified
                                && res2@.certification_code == Some(
                                cert_code_of(request.target_organization_id@, rid),
                            ) && res2@.certification_timestamp == Some(now) && res2@.public_key
                                == hex_of(crate::crypto::pubkey_of(sk)) && res2@.date_joined == (
                            match existing {
                                Some(res) => res.date_joined,
                                None => now,
                            }))
                            &&& forall|k2: Seq<u8>|
                                k2 != rid ==> final(state).resellers.get(k2) == old(
                                    state,
                                ).resellers.get(k2)
                            &&& (final(state).users.get(caller@) matches Some(u2) && u2@ == UserV {
                                org_ids: seq![request.target_organization_id@],
                                updated_at: now,
                                updated_by: caller@,
                                ..u@
                            })
                            &&& forall|k2: Seq<u8>|
                                k2 != caller@ ==> final(state).users.get(k2) == old(
                                    state,
                                ).users.get(k2)
                        },
                    }
                }
            },
        },
{
    let u = match state.users.get_ref(caller) {
        Some(u) => u.clone(),
        None => {
            return ApiResponse::error(ApiError::unauthorized("User not registered"));
        },
    };
    let is_reseller = match u.user_role {
        Some(UserRole::Reseller) => true,
        _ => false,
    };
    if !is_reseller {
        return ApiResponse::error(
            ApiError::unauthorized("Only Resellers can complete this profile"),
        );
    }
    let org_key = match state.organizations.get_ref(&request.target_organization_id) {
        Some(o) => o.private_key.clone(),
        None => {
            return ApiResponse::error(ApiError::not_found("Target organization not found"));
        },
    };
    let sk_bytes = match crate::hexstr::hex_decode(org_key.as_str()) {
        Some(b) => b,
        None => {
            return ApiResponse::error(
                ApiError::internal_error("Failed to process organization secret key"),
            );
        },
    };
    let pubkey = match crate::crypto::derive_pubkey(&sk_bytes) {
        Some(p) => p,
        None => {
            return ApiResponse::error(
                ApiError::internal_error("Malformed secret key for organization"),
            );
        },
    };
    let public_key_hex = hex_encode(&pubkey);

    let existing = get_reseller_by_user_id(&state.resellers, caller);
    let (reseller_id, date_joined, kept_metadata, created_at): (Id, u64, Vec<crate::model::Metadata>, u64) =
        match &existing {
        Some(res) => (res.id.clone(), res.date_joined, clone_metadatas(&res.metadata), res.created_at),
        None => (generate_unique_principal(&Id::anonymous(), now), now, Vec::new(), now),
    };
    let cert_code = build_cert_code(&request.target_organization_id, &reseller_id);

    let record = Reseller {
        id: reseller_id.clone(),
        user_id: caller.clone(),
        org_id: request.target_organization_id.clone(),
        name: request.reseller_name,
        contact_email: request.contact_email,
        contact_phone: request.contact_phone,
        ecommerce_urls: request.ecommerce_urls,
        additional_metadata: request.additional_metadata,
        is_verified: true,
        certification_code: Some(cert_code),
        certification_timestamp: Some(now),
        date_joined,
        metadata: kept_metadata,
        public_key: public_key_hex,
        created_at,
        created_by: caller.clone(),
        updated_at: now,
        updated_by: caller.clone(),
    };
    state.resellers.insert(reseller_id, record);

    let mut org_ids: Vec<Id> = Vec::new();
    org_ids.push(request.target_organization_id.clone());
    let updated_user = User {
        org_ids,
        updated_at: now,
        updated_by: caller.clone(),
        id: u.id,
        user_role: u.user_role,
        is_principal: u.is_principal,
        is_enabled: u.is_enabled,
        active_org_id: u.active_org_id,
        first_name: u.first_name,
        last_name: u.last_name,
        phone_no: u.phone_no,
        email: u.email,
        detail_meta: u.detail_meta,
        session_keys: u.session_keys,
        created_at: u.created_at,
        created_by: u.created_by,
    };
    let ctx_user = updated_user.clone();
    proof {
        assert(updated_user.org_ids.deep_view() =~= seq![request.target_organization_id@]);
        assert(updated_user@ =~= UserV {
            org_ids: seq![request.target_organization_id@],
            updated_at: now,
            updated_by: caller@,
            ..old(state).users.get(caller@)->0@
        });
    }
    state.users.insert(caller.clone(), updated_user);

    let ctx = build_auth_context_response(state, &ctx_user);
    ApiResponse::success(ctx)
}

/// The caller's certification page: their verified reseller profile,
/// the associated organization, and the certification code and
/// timestamp. Only a verified reseller with recorded certification
/// details is served.
pub fn get_my_reseller_certification(state: &State, caller: &Id) -> (r: ApiResponse<
    ResellerCertificationPageContext,
>)
    requires
        state.wf(),
    ensures
        match state.users.get(caller@) {
            None => r.error matches Some(e) && e is Unauthorized,
            Some(u) => {
                if u.user_role != Some(UserRole::Reseller) {
                    r.error matches Some(e) && e is Unauthorized
                } else {
                    match find_reseller_by_user(state.resellers.entries@, caller@) {
                        None => r.error matches Some(e) && e is Unauthorized,
                        Some(res) => {
                            if !res.is_verified {
                                r.error matches Some(e) && e is Unauthorized
                            } else {
                                match state.organizations.get(res.org_id@) {
                                    None => r.error matches Some(e) && e is InternalError,
                                    Some(org) => {
                                        if res.certification_code is None
                                            || res.certification_timestamp is None {
                                            r.error matches Some(e) && e is InternalError
                                        } else {
                                            &&& r.data matches Some(page)
                                            &&& page.reseller_profile.id@ == res.id@
                                            &&& page.reseller_profile.is_verified
                                            &&& page.associated_organization@ == org_public_of(
                                                org@,
                                            )
                                            &&& page.certification_code@
                                                == res.certification_code->0@
                                            &&& page.certification_timestamp
                                                == res.certification_timestamp->0
                                            &&& page.user_details.id@ == u.id@
                                        }
                                    },
                                }
                            }
                        },
                    }
                }
            },
        },
{
    let u = match state.users.get_ref(caller) {
        Some(u) => u,
        None => {
            return ApiResponse::error(ApiError::unauthorized("User not registered"));
        },
    };
    let is_reseller = match u.user_role {
        Some(UserRole::Reseller) => true,
        _ => false,
    };
    if !is_reseller {
        return ApiResponse::error(
            ApiError::unauthorized("Only Resellers can access certification details"),
        );
    }
    let res = match get_reseller_by_user_id(&state.resellers, caller) {
        Some(res) => res,
        None => {
            return ApiResponse::error(
                ApiError::unauthorized("Reseller profile is not complete or verified"),
            );
        },
    };
    if !res.is_verified {
        return ApiResponse::error(
            ApiError::unauthorized("Reseller profile is not complete or verified"),
        );
    }
    let org = match state.organizations.get_ref(&res.org_id) {
        Some(o) => o.clone(),
        None => {
            return ApiResponse::error(
                ApiError::internal_error("Associated organization not found for reseller"),
            );
        },
    };
    let certification_code = match &res.certification_code {
        Some(c) => c.clone(),
        None => {
            return ApiResponse::error(
                ApiError::internal_error("Certification details missing for verified reseller"),
            );
        },
    };
    let certification_timestamp = match res.certification_timestamp {
        Some(t) => t,
        None => {
            return ApiResponse::error(
                ApiError::internal_error("Certification details missing for verified reseller"),
            );
        },
    };
    let reseller_profile = ResellerPublic {
        id: res.id.clone(),
        user_id: res.user_id.clone(),
        organization_id: res.org_id.clone(),
        name: res.name.clone(),
        contact_email: clone_opt_string(&res.contact_email),
        contact_phone: clone_opt_string(&res.contact_phone),
        ecommerce_urls: clone_metadatas(&res.ecommerce_urls),
        additional_metadata: crate::model::clone_opt_metadatas(&res.additional_metadata),
        is_verified: res.is_verified,
        public_key: res.public_key.clone(),
        certification_code: Some(certification_code.clone()),
        certification_timestamp: Some(certification_timestamp),
        created_at: res.created_at,
        updated_at: res.updated_at,
    };
    let user_details = user_public_of(u);
    ApiResponse::success(
        ResellerCertificationPageContext {
            reseller_profile,
            associated_organization: OrganizationPublic::from(org),
            certification_code,
            certification_timestamp,
            user_details,
        },
    )
}

/// The display name the navigation header shows: the first name, else
/// the email, else the identifier's hex text.
pub open spec fn display_name_of(u: crate::model::UserV) -> Seq<char> {
    match u.first_name {
        Some(f) => f,
        None => match u.email {
            Some(e) => e,
            None => hex_of(u.id),
        },
    }
}

/// The navigation header's context: the display name and, for a brand
/// owner their active organization's name, for a reseller their
/// associated organization's name.
pub fn get_navigation_context(state: &State, caller: &Id) -> (r: ApiResponse<
    NavigationContextResponse,
>)
    requires
        state.wf(),
    ensures
        match state.users.get(caller@) {
            None => r.error matches Some(e) && e is Unauthorized,
            Some(u) => {
                &&& r.data matches Some(nav)
                &&& r.data->0.user_display_name@ == display_name_of(u@)
                &&& r.data->0.user_avatar_id is None
                &&& ({
                    let expected: Option<Seq<char>> = if u.user_role == Some(
                        UserRole::BrandOwner,
                    ) {
                        match u.active_org_id {
                            Some(aid) => match state.organizations.get(aid@) {
                                Some(o) => Some(o.name@),
                                None => None,
                            },
                            None => None,
                        }
                    } else if u.user_role == Some(UserRole::Reseller) {
                        match find_reseller_by_user(state.resellers.entries@, u.id@) {
                            Some(res) => match state.organizations.get(res.org_id@) {
                                Some(o) => Some(o.name@),
                                None => None,
                            },
                            None => None,
                        }
                    } else {
                        None
                    };
                    r.data->0.current_organization_name.deep_view() == expected
                })
            },
        },
{
    let u = match state.users.get_ref(caller) {
        Some(u) => u,
        None => {
            return ApiResponse::error(ApiError::unauthorized("User not authenticated"));
        },
    };
    let user_display_name = match &u.first_name {
        Some(f) => f.clone(),
        None => match &u.email {
            Some(e) => e.clone(),
            None => hex_encode(&u.id.bytes),
        },
    };
    let is_brand_owner = match u.user_role {
        Some(UserRole::BrandOwner) => true,
        _ => false,
    };
    let is_reseller = match u.user_role {
        Some(UserRole::Reseller) => true,
        _ => false,
    };
    let current_organization_name: Option<String> = if is_brand_owner {
        match &u.active_org_id {
            Some(aid) => match state.organizations.get_ref(aid) {
                Some(o) => Some(o.name.clone()),
                None => None,
            },
            None => None,
        }
    } else if is_reseller {
        match get_reseller_by_user_id(&state.resellers, &u.id) {
            Some(res) => match state.organizations.get_ref(&res.org_id) {
                Some(o) => Some(o.name.clone()),
                None => None,
            },
            None => None,
        }
    } else {
        None
    };
    ApiResponse::success(
        NavigationContextResponse {
            user_display_name,
            user_avatar_id: None,
            current_organization_name,
        },
    )
}

} // verus!
