//! Organizations: creation with a fresh signing keypair, updates, lookup
//! and listing. The secret key is minted here and never changes for the
//! organization's lifetime.

use vstd::prelude::*;

verus! {

use crate::api::ApiResponse;
use crate::api::CreateOrganizationRequest;
use crate::api::FindOrganizationsRequest;
use crate::api::GetOrganizationAnalyticRequest;
use crate::api::OrganizationAnalyticData;
use crate::api::OrganizationResponse;
use crate::api::OrganizationsListResponse;
use crate::api::paginate;
use crate::api::PaginationRequest;
use crate::api::UpdateOrganizationRequest;
use crate::auth::authorize_for_organization;
use crate::auth::Permission;
use crate::auth::spec_authorized_for_org;
use crate::crypto::gen_secret_key;
use crate::errors::ApiError;
use crate::hexstr::hex_encode;
use crate::hexstr::lemma_hex_of_is_hex_seq;
use crate::hexstr::lemma_hex_round_trip;
use crate::ids::Id;
use crate::model::clone_metadatas;
use crate::model::ids_contain;
use crate::model::Metadata;
use crate::model::Organization;
use crate::model::OrganizationInput;
use crate::model::OrganizationPublic;
use crate::model::OrganizationPublicV;
use crate::model::OrganizationResult;
use crate::model::OrganizationV;
use crate::model::org_public_of;
use crate::model::PrivateKeyResult;
use crate::model::User;
use crate::model::UserRole;
use crate::model::UserV;
use crate::state::org_key_wf;
use crate::state::State;
use crate::strutil::contains_ci;
use crate::strutil::contains_sub;
use crate::strutil::is_blank;
use crate::strutil::lower_of;
use crate::strutil::trim_of;
use crate::strutil::trim_str;
use crate::utils::generate_unique_principal;
use crate::utils::unique_id_of;

/// What a freshly created organization's record looks like, apart from
/// its randomly drawn key.
pub open spec fn created_org_matches(
    o: OrganizationV,
    id: Seq<u8>,
    name: Seq<char>,
    description: Seq<char>,
    metadata: Seq<crate::model::MetadataV>,
    caller: Seq<u8>,
    now: u64,
) -> bool {
    &&& o.id == id
    &&& o.name == name
    &&& o.description == description
    &&& o.metadata == metadata
    &&& o.created_at == now
    &&& o.created_by == caller
    &&& o.updated_at == now
    &&& o.updated_by == caller
    &&& org_key_wf(o.private_key)
}

/// Mints the organization record with a fresh random keypair.
fn mint_organization(id: Id, name: String, description: String, metadata: Vec<Metadata>, caller: &Id, now: u64) -> (r:
    Organization)
    ensures
        created_org_matches(
            r@,
            id@,
            name@,
            description@,
            metadata.deep_view(),
            caller@,
            now,
        ),
{
    let secret = gen_secret_key();
    let private_key = hex_encode(&secret);
    proof {
        lemma_hex_of_is_hex_seq(secret@);
        lemma_hex_round_trip(secret@);
    }
    Organization {
        id,
        name,
        description,
        private_key,
        metadata,
        created_at: now,
        created_by: caller.clone(),
        updated_at: now,
        updated_by: caller.clone(),
    }
}

/// Creates an organization with a fresh keypair under a derived
/// identifier and registers the caller when unknown. In the
/// vanishingly unlikely event that the derived identifier is already
/// taken, the store is left unchanged and only the response is produced.
pub fn create_organization(state: &mut State, caller: &Id, input: OrganizationInput, now: u64) -> (r:
    OrganizationPublic)
    requires
        old(state).wf(),
    ensures
        final(state).wf(),
        ({
            let id = unique_id_of(seq![4u8], now);
            &&& r@.id == id
            &&& r@.name == input.name@
            &&& r@.description == input.description@
            &&& r@.created_by == caller@
            &&& (old(state).organizations.get(id) is None ==> (final(state).organizations.get(id)
                matches Some(o) && created_org_matches(
                o@,
                id,
                input.name@,
                input.description@,
                input.metadata.deep_view(),
                caller@,
                now,
            ) && r@ == org_public_of(o@)))
            &&& forall|k2: Seq<u8>|
                k2 != id ==> final(state).organizations.get(k2) == old(state).organizations.get(k2)
            &&& final(state).products == old(state).products
            &&& (final(state).users.get(caller@) matches Some(u2) && u2@ == (match old(
                state,
            ).users.get(caller@) {
                Some(u) => u@,
                None => crate::users::fresh_user_v(caller@, now),
            }))
            &&& forall|k2: Seq<u8>|
                k2 != caller@ ==> final(state).users.get(k2) == old(state).users.get(k2)
        }),
{
    if state.users.get_ref(caller).is_none() {
        let _ = crate::users::register(state, caller, now);
    }
    let id = generate_unique_principal(&Id::anonymous(), now);
    let organization = mint_organization(
        id.clone(),
        input.name,
        input.description,
        input.metadata,
        caller,
        now,
    );
    let public = OrganizationPublic::from(organization.clone());
    if state.organizations.get_ref(&id).is_none() {
        state.organizations.insert(id, organization);
    }
    public
}

/// Creates an organization for the caller: the name must not be blank,
/// the caller is registered when unknown, and the new organization is
/// appended to the caller's associations.
pub fn create_organization_v2(
    state: &mut State,
    caller: &Id,
    request: CreateOrganizationRequest,
    now: u64,
) -> (r: ApiResponse<OrganizationResponse>)
    requires
        old(state).wf(),
    ensures
        final(state).wf(),
        crate::strutil::all_space(request.name@) ==> (r.error matches Some(e) && e is InvalidInput
            && *final(state) == *old(state)),
        ({
            let id = unique_id_of(seq![4u8], now);
            &&& (!crate::strutil::all_space(request.name@) && old(state).organizations.get(
                id,
            ) is None) ==> {
                &&& r.data matches Some(resp) && resp.organization@.id == id
                    && resp.organization@.name == request.name@ && resp.organization@.created_by
                    == caller@
                &&& final(state).organizations.get(id) matches Some(o) && created_org_matches(
                    o@,
                    id,
                    request.name@,
                    request.description@,
                    request.metadata.deep_view(),
                    caller@,
                    now,
                ) && r.data->0.organization@ == org_public_of(o@)
                &&& final(state).users.get(caller@) matches Some(u2) && ids_contain(
                    u2@.org_ids,
                    id,
                )
                &&& forall|k2: Seq<u8>|
                    k2 != id ==> final(state).organizations.get(k2) == old(
                        state,
                    ).organizations.get(k2)
                &&& final(state).products == old(state).products
                &&& final(state).serial_numbers == old(state).serial_numbers
            }
        }),
{
    if is_blank(request.name.as_str()) {
        return ApiResponse::error(ApiError::invalid_input("Organization name cannot be empty"));
    }
    if state.users.get_ref(caller).is_none() {
        let _ = crate::users::register(state, caller, now);
    }
    let id = generate_unique_principal(&Id::anonymous(), now);
    if state.organizations.get_ref(&id).is_some() {
        return ApiResponse::error(ApiError::internal_error("Identifier collision"));
    }
    let organization = mint_organization(
        id.clone(),
        request.name,
        request.description,
        request.metadata,
        caller,
        now,
    );
    let public = OrganizationPublic::from(organization.clone());
    state.organizations.insert(id.clone(), organization);

    let u = match state.users.get_ref(caller) {
        Some(u) => u,
        None => {
            return ApiResponse::error(ApiError::internal_error("Failed to add organization to user"));
        },
    };
    let mut org_ids = crate::model::clone_ids(&u.org_ids);
    org_ids.push(id);
    let updated = User {
        org_ids,
        updated_at: now,
        id: u.id.clone(),
        user_role: u.user_role,
        is_principal: u.is_principal,
        is_enabled: u.is_enabled,
        active_org_id: crate::model::clone_opt_id(&u.active_org_id),
        first_name: crate::model::clone_opt_string(&u.first_name),
        last_name: crate::model::clone_opt_string(&u.last_name),
        phone_no: crate::model::clone_opt_string(&u.phone_no),
        email: crate::model::clone_opt_string(&u.email),
        detail_meta: clone_metadatas(&u.detail_meta),
        session_keys: crate::model::clone_ids(&u.session_keys),
        created_at: u.created_at,
        created_by: u.created_by.clone(),
        updated_by: u.updated_by.clone(),
    };
    proof {
        let dv = updated.org_ids.deep_view();
        assert(dv[dv.len() - 1] == unique_id_of(seq![4u8], now));
    }
    state.users.insert(caller.clone(), updated);
    ApiResponse::success(OrganizationResponse { organization: public })
}

/// Rewrites an organization's name, description and metadata; everything
/// else, the key included, is kept. The caller needs write access.
pub fn update_organization(state: &mut State, caller: &Id, id: &Id, input: OrganizationInput, now: u64) -> (r:
    OrganizationResult)
    requires
        old(state).wf(),
    ensures
        final(state).wf(),
        if spec_authorized_for_org(
            old(state).users,
            old(state).organizations,
            caller@,
            id@,
            Permission::WriteOrganization,
        ) {
            let expected = OrganizationV {
                name: input.name@,
                description: input.description@,
                metadata: input.metadata.deep_view(),
                updated_at: now,
                updated_by: caller@,
                ..old(state).organizations.get(id@)->0@
            };
            &&& r matches OrganizationResult::Organization(ro) && ro@ == org_public_of(expected)
            &&& final(state).organizations.get(id@) matches Some(o2) && o2@ == expected
            &&& forall|k2: Seq<u8>|
                k2 != id@ ==> final(state).organizations.get(k2) == old(state).organizations.get(
                    k2,
                )
            &&& final(state).products == old(state).products
            &&& final(state).users == old(state).users
        } else {
            r matches OrganizationResult::Error(e) && (e is NotFound || e is Unauthorized)
                && *final(state) == *old(state)
        },
{
    let org = match authorize_for_organization(
        &state.users,
        &state.organizations,
        caller,
        id,
        Permission::WriteOrganization,
    ) {
        Ok(o) => o,
        Err(e) => {
            return OrganizationResult::Error(e);
        },
    };
    let updated = Organization {
        name: input.name,
        description: input.description,
        metadata: input.metadata,
        updated_at: now,
        updated_by: caller.clone(),
        id: org.id,
        private_key: org.private_key,
        created_at: org.created_at,
        created_by: org.created_by,
    };
    let public = OrganizationPublic::from(updated.clone());
    proof {
        assert(updated@ =~= OrganizationV {
            name: input.name@,
            description: input.description@,
            metadata: input.metadata.deep_view(),
            updated_at: now,
            updated_by: caller@,
            ..old(state).organizations.get(id@)->0@
        });
    }
    state.organizations.insert(id.clone(), updated);
    proof {
        let st = *state;
        assert forall|k: Seq<u8>| #[trigger] st.products.get(k) is Some implies st.product_ok(
            k,
            st.products.get(k)->0,
        ) by {
            let p = st.products.get(k)->0;
            assert(old(state).product_ok(k, p));
            assert(st.organizations.get(p.org_id@) is Some);
            assert(st.organizations.get(p.org_id@)->0.private_key@ == old(
                state,
            ).organizations.get(p.org_id@)->0.private_key@);
        }
    }
    OrganizationResult::Organization(public)
}

/// Rewrites an organization's name, description and metadata after
/// checking the name is not blank; the caller needs write access.
pub fn update_organization_v2(
    state: &mut State,
    caller: &Id,
    request: UpdateOrganizationRequest,
    now: u64,
) -> (r: ApiResponse<OrganizationResponse>)
    requires
        old(state).wf(),
    ensures
        final(state).wf(),
        crate::strutil::all_space(request.name@) ==> (r.error matches Some(e) && e is InvalidInput
            && *final(state) == *old(state)),
        !crate::strutil::all_space(request.name@) ==> if spec_authorized_for_org(
            old(state).users,
            old(state).organizations,
            caller@,
            request.id@,
            Permission::WriteOrganization,
        ) {
            let expected = OrganizationV {
                name: request.name@,
                description: request.description@,
                metadata: request.metadata.deep_view(),
                updated_at: now,
                updated_by: caller@,
                ..old(state).organizations.get(request.id@)->0@
            };
            &&& r.data matches Some(resp) && resp.organization@ == org_public_of(expected)
            &&& final(state).organizations.get(request.id@) matches Some(o2) && o2@ == expected
            &&& forall|k2: Seq<u8>|
                k2 != request.id@ ==> final(state).organizations.get(k2) == old(
                    state,
                ).organizations.get(k2)
            &&& final(state).products == old(state).products
        } else {
            r.error matches Some(e) && (e is NotFound || e is Unauthorized) && *final(state)
                == *old(state)
        },
{
    if is_blank(request.name.as_str()) {
        return ApiResponse::error(ApiError::invalid_input("Organization name cannot be empty"));
    }
    let input = OrganizationInput {
        name: request.name,
        description: request.description,
        metadata: request.metadata,
    };
    match update_organization(state, caller, &request.id, input, now) {
        OrganizationResult::Organization(o) => ApiResponse::success(
            OrganizationResponse { organization: o },
        ),
        OrganizationResult::Error(e) => ApiResponse::error(e),
    }
}

/// Looks an organization up by identifier. A registered caller must hold
/// a role and either belong to the organization or be an admin; an
/// unregistered caller is served the public record as-is.
pub fn get_organization_by_id(state: &State, caller: &Id, id: &Id) -> (r: OrganizationResult)
    requires
        state.wf(),
    ensures
        ({
            let gate = match state.users.get(caller@) {
                Some(u) => match u.user_role {
                    Some(role) => ids_contain(u.org_ids.deep_view(), id@) || role == UserRole::Admin,
                    None => false,
                },
                None => true,
            };
            if !gate {
                r matches OrganizationResult::Error(e) && e is Unauthorized
            } else {
                match state.organizations.get(id@) {
                    Some(o) => r matches OrganizationResult::Organization(ro) && ro@
                        == org_public_of(o@),
                    None => r matches OrganizationResult::Error(e) && e is NotFound,
                }
            }
        }),
{
    match state.users.get_ref(caller) {
        Some(u) => {
            match u.user_role {
                Some(role) => {
                    let is_admin = match role {
                        UserRole::Admin => true,
                        _ => false,
                    };
                    if !ids_contains(&u.org_ids, id) && !is_admin {
                        return OrganizationResult::Error(
                            ApiError::unauthorized(
                                "User does not have access to this organization",
                            ),
                        );
                    }
                },
                None => {
                    return OrganizationResult::Error(
                        ApiError::unauthorized("User has no role assigned"),
                    );
                },
            }
        },
        None => {},
    }
    match state.organizations.get_ref(id) {
        Some(o) => OrganizationResult::Organization(OrganizationPublic::from(o.clone())),
        None => OrganizationResult::Error(ApiError::not_found("Organization not found")),
    }
}

/// Looks an organization up by identifier; the caller must be registered
/// and hold a role (any role grants read here).
pub fn get_organization_by_id_v2(state: &State, caller: &Id, id: &Id) -> (r: ApiResponse<
    OrganizationResponse,
>)
    requires
        state.wf(),
    ensures
        ({
            let gate = state.users.get(caller@) matches Some(u) && u.user_role is Some;
            if !gate {
                r.error matches Some(e) && e is Unauthorized
            } else {
                match state.organizations.get(id@) {
                    Some(o) => r.data matches Some(resp) && resp.organization@ == org_public_of(
                        o@,
                    ),
                    None => r.error matches Some(e) && e is NotFound,
                }
            }
        }),
{
    match state.users.get_ref(caller) {
        Some(u) => {
            if u.user_role.is_none() {
                return ApiResponse::error(ApiError::unauthorized("User has no role assigned"));
            }
        },
        None => {
            return ApiResponse::error(ApiError::unauthorized("User not found"));
        },
    }
    match state.organizations.get_ref(id) {
        Some(o) => ApiResponse::success(
            OrganizationResponse { organization: OrganizationPublic::from(o.clone()) },
        ),
        None => ApiResponse::error(ApiError::not_found("Organization not found")),
    }
}

/// Hands out an organization's secret key, hex-encoded; requires write
/// access to that organization — never to unauthorized callers.
pub fn get_organization_private_key(state: &State, caller: &Id, org_id: &Id) -> (r:
    PrivateKeyResult)
    requires
        state.wf(),
    ensures
        if spec_authorized_for_org(
            state.users,
            state.organizations,
            caller@,
            org_id@,
            Permission::WriteOrganization,
        ) {
            r matches PrivateKeyResult::Key(k) && k@ == state.organizations.get(
                org_id@,
            )->0.private_key@
        } else {
            r matches PrivateKeyResult::Error(e) && (e is NotFound || e is Unauthorized)
        },
{
    match authorize_for_organization(
        &state.users,
        &state.organizations,
        caller,
        org_id,
        Permission::WriteOrganization,
    ) {
        Ok(org) => PrivateKeyResult::Key(org.private_key),
        Err(e) => PrivateKeyResult::Error(e),
    }
}

/// Whether an organization's name matches a filter, compared
/// ASCII-case-insensitively after trimming the filter.
pub open spec fn org_name_matches(o: Organization, filter: Seq<char>) -> bool {
    contains_sub(lower_of(o.name@), lower_of(trim_of(filter)))
}

/// The filter predicate a name filter induces on stored organizations.
pub open spec fn org_match_pred(filter: Seq<char>) -> spec_fn((Id, Organization)) -> bool {
    |e: (Id, Organization)| org_name_matches(e.1, filter)
}

/// The projection from a stored organization to its public view.
pub open spec fn org_pub_proj() -> spec_fn((Id, Organization)) -> OrganizationPublicV {
    |e: (Id, Organization)| org_public_of(e.1@)
}

/// The public views of the organizations whose names match the filter,
/// in store order.
pub open spec fn matching_orgs(s: Seq<(Id, Organization)>, filter: Seq<char>) -> Seq<
    OrganizationPublicV,
> {
    s.filter(org_match_pred(filter)).map_values(org_pub_proj())
}

/// Lists the organizations whose names contain the filter,
/// case-insensitively; the filter is trimmed first.
pub fn find_organizations_by_name(state: &State, name: &str) -> (r: Vec<OrganizationPublic>)
    requires
        state.wf(),
    ensures
        r.deep_view() == matching_orgs(state.organizations.entries@, name@),
{
    let filter = trim_str(name);
    let mut result: Vec<OrganizationPublic> = Vec::new();
    let mut i: usize = 0;
    proof {
        crate::idmap::lemma_filter_take_zero(
            state.organizations.entries@,
            org_match_pred(name@),
        );
        assert(matching_orgs(state.organizations.entries@.take(0), name@) =~~= result.deep_view());
    }
    while i < state.organizations.entries.len()
        invariant
            state.wf(),
            filter@ == trim_of(name@),
            i <= state.organizations.entries@.len(),
            result.deep_view() =~~= matching_orgs(
                state.organizations.entries@.take(i as int),
                name@,
            ),
        decreases state.organizations.entries@.len() - i,
    {
        let ghost entries = state.organizations.entries@;
        let ghost pred = org_match_pred(name@);
        let ghost prev = result.deep_view();
        let e = &state.organizations.entries[i];
        let matches_filter = contains_ci(e.1.name.as_str(), filter.as_str());
        proof {
            assert(matches_filter == pred(entries[i as int]));
            crate::idmap::lemma_filter_take_step(entries, i as int, pred);
        }
        if matches_filter {
            let ghost prevv = result@;
            result.push(OrganizationPublic::from(e.1.clone()));
            proof {
                let fprev = entries.take(i as int).filter(pred);
                let fnew = entries.take(i + 1).filter(pred);
                assert(fnew == fprev.push(entries[i as int]));
                assert(prev == fprev.map_values(org_pub_proj()));
                assert(prev.len() == fprev.len());
                assert(prevv.len() == prev.len());
                assert(result@.len() == prevv.len() + 1);
                assert forall|j: int| 0 <= j < fnew.len() implies fnew.map_values(org_pub_proj())[j]
                    == result.deep_view()[j] by {
                    assert(result.deep_view()[j] == result@[j]@);
                    if j < fprev.len() {
                        assert(fnew[j] == fprev[j]);
                        assert(result@[j] == prevv[j]);
                        assert(result@[j]@ == prev[j]);
                        assert(prev[j] == fprev.map_values(org_pub_proj())[j]);
                    } else {
                        assert(fnew[j] == entries[i as int]);
                    }
                }
                assert(result.deep_view() =~~= matching_orgs(entries.take(i + 1), name@));
            }
        } else {
            proof {
                assert(entries.take(i + 1).filter(pred) == entries.take(i as int).filter(pred));
                assert(result.deep_view() =~~= matching_orgs(entries.take(i + 1), name@));
            }
        }
        i = i + 1;
    }
    proof {
        assert(state.organizations.entries@.take(state.organizations.entries@.len() as int)
            =~= state.organizations.entries@);
    }
    result
}

/// Lists the organizations the caller may see whose names match the
/// filter: all of them for an admin, the caller's own for anyone else,
/// paginated.
/// Whether a public organization view is among a user's associations.
pub open spec fn visible_org_pred(org_ids: Seq<Seq<u8>>) -> spec_fn(OrganizationPublicV) -> bool {
    |o: OrganizationPublicV| ids_contain(org_ids, o.id)
}

/// The page of visible organizations a listing request yields: an admin
/// sees every name match, anyone else only their own, with the page
/// number clamped to at least one.
pub open spec fn listed_orgs_page(
    state: State,
    u: crate::model::User,
    name: Seq<char>,
    pagination: Option<PaginationRequest>,
) -> Seq<OrganizationPublicV> {
    let base = matching_orgs(state.organizations.entries@, name);
    let visible = if u.user_role == Some(UserRole::Admin) {
        base
    } else {
        base.filter(visible_org_pred(u.org_ids.deep_view()))
    };
    let preq = match pagination {
        Some(p) => p,
        None => PaginationRequest { page: Some(1), limit: Some(10) },
    };
    let page = if crate::api::page_of(preq) >= 1 {
        crate::api::page_of(preq)
    } else {
        1
    };
    crate::api::page_slice(visible, page, crate::api::limit_of(preq))
}

pub fn list_organizations_v2(state: &State, caller: &Id, request: FindOrganizationsRequest) -> (r:
    ApiResponse<OrganizationsListResponse>)
    requires
        state.wf(),
    ensures
        ({
            match state.users.get(caller@) {
                None => r.error matches Some(e) && e is Unauthorized,
                Some(u) => match u.user_role {
                    None => r.error matches Some(e) && e is Unauthorized,
                    Some(role) => r.data matches Some(resp)
                        && resp.organizations.deep_view() == listed_orgs_page(
                        *state,
                        u,
                        request.name@,
                        request.pagination,
                    ),
                },
            }
        }),
{
    let u = match state.users.get_ref(caller) {
        Some(u) => u,
        None => {
            return ApiResponse::error(ApiError::unauthorized("User not found"));
        },
    };
    let role = match u.user_role {
        Some(role) => role,
        None => {
            return ApiResponse::error(ApiError::unauthorized("User has no role assigned"));
        },
    };
    let all = find_organizations_by_name(state, request.name.as_str());
    let is_admin = match role {
        UserRole::Admin => true,
        _ => false,
    };
    let ghost base = matching_orgs(state.organizations.entries@, request.name@);
    let mut filtered: Vec<OrganizationPublic> = Vec::new();
    let mut all = all;
    if is_admin {
        filtered = all;
    } else {
        // Keep only the caller's own organizations.
        let ghost pred = visible_org_pred(u.org_ids.deep_view());
        let mut i: usize = 0;
        proof {
            crate::idmap::lemma_filter_take_zero(base, pred);
            assert(filtered.deep_view() =~~= base.take(0).filter(pred));
        }
        while i < all.len()
            invariant
                i <= all@.len(),
                all.deep_view() == base,
                state.users.get(caller@) is Some,
                u == state.users.get(caller@)->0,
                filtered.deep_view() =~~= base.take(i as int).filter(
                    visible_org_pred(state.users.get(caller@)->0.org_ids.deep_view()),
                ),
            decreases all@.len() - i,
        {
            let ghost pred = visible_org_pred(u.org_ids.deep_view());
            let ghost prev = filtered.deep_view();
            proof {
                crate::idmap::lemma_filter_take_step(base, i as int, pred);
                assert(all@[i as int]@ == base[i as int]);
            }
            if ids_contains(&u.org_ids, &all[i].id) {
                let o = &all[i];
                let ghost prevv = filtered@;
                let copy = OrganizationPublic {
                    id: o.id.clone(),
                    name: o.name.clone(),
                    description: o.description.clone(),
                    metadata: clone_metadatas(&o.metadata),
                    created_at: o.created_at,
                    created_by: o.created_by.clone(),
                    updated_at: o.updated_at,
                    updated_by: o.updated_by.clone(),
                };
                proof {
                    assert(copy@ =~= base[i as int]);
                }
                filtered.push(copy);
                proof {
                    let fprev = base.take(i as int).filter(pred);
                    let fnew = base.take(i + 1).filter(pred);
                    assert(fnew == fprev.push(base[i as int]));
                    assert(prev.len() == fprev.len());
                    assert(prevv.len() == prev.len());
                    assert(filtered@.len() == prevv.len() + 1);
                    assert forall|j: int| 0 <= j < fnew.len() implies fnew[j]
                        == filtered.deep_view()[j] by {
                        assert(filtered.deep_view()[j] == filtered@[j]@);
                        if j < fprev.len() {
                            assert(fnew[j] == fprev[j]);
                            assert(filtered@[j] == prevv[j]);
                            assert(filtered@[j]@ == prev[j]);
                        } else {
                            assert(fnew[j] == base[i as int]);
                        }
                    }
                    assert(filtered.deep_view() =~~= base.take(i + 1).filter(pred));
                }
            } else {
                proof {
                    assert(base.take(i + 1).filter(pred) == base.take(i as int).filter(pred));
                    assert(filtered.deep_view() =~~= base.take(i + 1).filter(pred));
                }
            }
            i = i + 1;
        }
        proof {
            assert(base.take(base.len() as int) =~= base);
        }
    }
    let ghost fdv = filtered.deep_view();
    let ghost fv = filtered@;
    let pagination_request = match request.pagination {
        Some(p) => p,
        None => PaginationRequest::first_page(),
    };
    let page = match pagination_request.page {
        Some(p) => if p >= 1 {
            Some(p)
        } else {
            Some(1)
        },
        None => None,
    };
    let pagination_request = PaginationRequest { page, limit: pagination_request.limit };
    let (paginated, pagination) = paginate(filtered, &pagination_request);
    proof {
        let gp = crate::api::page_of(pagination_request);
        let gl = crate::api::limit_of(pagination_request);
        assert(paginated@ == crate::api::page_slice(fv, gp, gl));
        assert(fdv.len() == fv.len());
        crate::api::lemma_page_slice_len_eq(fdv, fv, gp, gl);
        assert forall|j: int| 0 <= j < paginated@.len() implies paginated.deep_view()[j]
            == crate::api::page_slice(fdv, gp, gl)[j] by {
            crate::api::lemma_page_slice_index(fdv, gp, gl, j);
            assert(paginated.deep_view()[j] == paginated@[j]@);
            let start = (gp - 1) * (gl as int);
            assert(start + j < fv.len() && paginated@[j] == fv[start + j]);
            assert(fv[start + j]@ == fdv[start + j]);
        }
        assert(paginated.deep_view() =~~= crate::api::page_slice(fdv, gp, gl));
    }
    ApiResponse::success(
        OrganizationsListResponse { organizations: paginated, pagination: Some(pagination) },
    )
}

/// Whether a stored product belongs to the organization.
pub open spec fn product_of_org_pred(org: Seq<u8>) -> spec_fn((Id, crate::model::Product)) -> bool {
    |e: (Id, crate::model::Product)| e.1.org_id@ == org
}

/// Whether a stored reseller belongs to the organization and is verified.
pub open spec fn verified_reseller_pred(org: Seq<u8>) -> spec_fn(
    (Id, crate::model::Reseller),
) -> bool {
    |e: (Id, crate::model::Reseller)| e.1.org_id@ == org && e.1.is_verified
}

/// Whether a verification is recent relative to a cutoff.
pub open spec fn recent_pred(cutoff: u64) -> spec_fn(crate::model::ProductVerification) -> bool {
    |v: crate::model::ProductVerification| v.created_at >= cutoff
}

/// How many verifications of the organization's products are recent:
/// per-product recent counts, summed in store order.
pub open spec fn org_recent_count(
    entries: Seq<(Id, Vec<crate::model::ProductVerification>)>,
    products: crate::idmap::IdMap<crate::model::Product>,
    org: Seq<u8>,
    cutoff: u64,
) -> int
    decreases entries.len(),
{
    if entries.len() == 0 {
        0
    } else {
        (if products.get(entries[0].0@) matches Some(p) && p.org_id@ == org {
            entries[0].1@.filter(recent_pred(cutoff)).len() as int
        } else {
            0
        }) + org_recent_count(entries.drop_first(), products, org, cutoff)
    }
}

/// Counting one more product's list adds its recent count when the
/// product belongs to the organization.
proof fn lemma_org_recent_count_take_step(
    entries: Seq<(Id, Vec<crate::model::ProductVerification>)>,
    products: crate::idmap::IdMap<crate::model::Product>,
    org: Seq<u8>,
    cutoff: u64,
    i: int,
)
    requires
        0 <= i < entries.len(),
    ensures
        org_recent_count(entries.take(i + 1), products, org, cutoff) == org_recent_count(
            entries.take(i),
            products,
            org,
            cutoff,
        ) + (if products.get(entries[i].0@) matches Some(p) && p.org_id@ == org {
            entries[i].1@.filter(recent_pred(cutoff)).len() as int
        } else {
            0
        }),
    decreases i,
{
    if i == 0 {
        assert(entries.take(1)[0] == entries[0]);
        assert(entries.take(1).drop_first() =~= Seq::<
            (Id, Vec<crate::model::ProductVerification>),
        >::empty());
        assert(entries.take(0) =~= Seq::<(Id, Vec<crate::model::ProductVerification>)>::empty());
    } else {
        assert(entries.take(i + 1)[0] == entries[0]);
        assert(entries.take(i)[0] == entries[0]);
        assert(entries.take(i + 1).drop_first() =~= entries.drop_first().take(i));
        assert(entries.take(i).drop_first() =~= entries.drop_first().take(i - 1));
        assert(entries.drop_first()[i - 1] == entries[i]);
        lemma_org_recent_count_take_step(entries.drop_first(), products, org, cutoff, i - 1);
    }
}

/// Counts an organization's products, verified resellers, and the
/// verifications recorded for its products in the last thirty days.
pub fn get_organization_analytic(
    state: &State,
    caller: &Id,
    request: &GetOrganizationAnalyticRequest,
    now: u64,
) -> (r: ApiResponse<OrganizationAnalyticData>)
    requires
        state.wf(),
    ensures
        r.data is Some <==> spec_authorized_for_org(
            state.users,
            state.organizations,
            caller@,
            request.org_id@,
            Permission::ReadOrganization,
        ),
        r.data matches Some(d) ==> {
            let cutoff: u64 = if now >= 2592000 {
                (now - 2592000) as u64
            } else {
                0
            };
            let recent = org_recent_count(
                state.verifications.entries@,
                state.products,
                request.org_id@,
                cutoff,
            );
            &&& d.total_products == state.products.entries@.filter(
                product_of_org_pred(request.org_id@),
            ).len()
            &&& d.active_resellers == state.resellers.entries@.filter(
                verified_reseller_pred(request.org_id@),
            ).len()
            &&& d.verifications_this_month == if recent <= u64::MAX {
                recent
            } else {
                u64::MAX as int
            }
        },
{
    if let Err(e) = authorize_for_organization(
        &state.users,
        &state.organizations,
        caller,
        &request.org_id,
        Permission::ReadOrganization,
    ) {
        return ApiResponse::error(e);
    }
    let mut total_products: u64 = 0;
    let mut i: usize = 0;
    proof {
        crate::idmap::lemma_filter_take_zero(
            state.products.entries@,
            product_of_org_pred(request.org_id@),
        );
    }
    while i < state.products.entries.len()
        invariant
            i <= state.products.entries@.len(),
            total_products == state.products.entries@.take(i as int).filter(
                product_of_org_pred(request.org_id@),
            ).len(),
            total_products <= i,
        decreases state.products.entries@.len() - i,
    {
        proof {
            crate::idmap::lemma_filter_take_step(
                state.products.entries@,
                i as int,
                product_of_org_pred(request.org_id@),
            );
        }
        if state.products.entries[i].1.org_id == request.org_id {
            total_products = total_products + 1;
        }
        i = i + 1;
    }
    let mut active_resellers: u64 = 0;
    let mut j: usize = 0;
    proof {
        crate::idmap::lemma_filter_take_zero(
            state.resellers.entries@,
            verified_reseller_pred(request.org_id@),
        );
    }
    while j < state.resellers.entries.len()
        invariant
            j <= state.resellers.entries@.len(),
            active_resellers == state.resellers.entries@.take(j as int).filter(
                verified_reseller_pred(request.org_id@),
            ).len(),
            active_resellers <= j,
        decreases state.resellers.entries@.len() - j,
    {
        proof {
            crate::idmap::lemma_filter_take_step(
                state.resellers.entries@,
                j as int,
                verified_reseller_pred(request.org_id@),
            );
        }
        if state.resellers.entries[j].1.org_id == request.org_id
            && state.resellers.entries[j].1.is_verified {
            active_resellers = active_resellers + 1;
        }
        j = j + 1;
    }
    proof {
        assert(state.products.entries@.take(state.products.entries@.len() as int)
            =~= state.products.entries@);
        assert(state.resellers.entries@.take(state.resellers.entries@.len() as int)
            =~= state.resellers.entries@);
    }
    // Verifications in the last thirty days, across the organization's
    // products. The total saturates rather than wrapping.
    let thirty_days: u64 = 2592000;
    let cutoff: u64 = if now >= thirty_days {
        now - thirty_days
    } else {
        0
    };
    let mut verifications_this_month: u64 = 0;
    let mut k: usize = 0;
    proof {
        assert(state.verifications.entries@.take(0) =~= Seq::<
            (Id, Vec<crate::model::ProductVerification>),
        >::empty());
    }
    while k < state.verifications.entries.len()
        invariant
            state.wf(),
            k <= state.verifications.entries@.len(),
            ({
                let recent = org_recent_count(
                    state.verifications.entries@.take(k as int),
                    state.products,
                    request.org_id@,
                    cutoff,
                );
                verifications_this_month == if recent <= u64::MAX {
                    recent
                } else {
                    u64::MAX as int
                }
            }),
        decreases state.verifications.entries@.len() - k,
    {
        proof {
            lemma_org_recent_count_take_step(
                state.verifications.entries@,
                state.products,
                request.org_id@,
                cutoff,
                k as int,
            );
        }
        let pid = state.verifications.entries[k].0.clone();
        let owned = match state.products.get_ref(&pid) {
            Some(p) => p.org_id == request.org_id,
            None => false,
        };
        proof {
            crate::idmap::lemma_assoc_get_at(state.verifications.entries@, k as int);
        }
        if owned {
            let list = &state.verifications.entries[k].1;
            let mut in_list: usize = 0;
            let mut m: usize = 0;
            proof {
                crate::idmap::lemma_filter_take_zero(list@, recent_pred(cutoff));
            }
            while m < list.len()
                invariant
                    m <= list@.len(),
                    in_list == list@.take(m as int).filter(recent_pred(cutoff)).len(),
                    in_list <= m,
                decreases list@.len() - m,
            {
                proof {
                    crate::idmap::lemma_filter_take_step(list@, m as int, recent_pred(cutoff));
                }
                if list[m].created_at >= cutoff {
                    in_list = in_list + 1;
                }
                m = m + 1;
            }
            proof {
                assert(list@.take(list@.len() as int) =~= list@);
            }
            verifications_this_month = verifications_this_month.saturating_add(in_list as u64);
        }
        k = k + 1;
    }
    proof {
        assert(state.verifications.entries@.take(state.verifications.entries@.len() as int)
            =~= state.verifications.entries@);
    }
    ApiResponse::success(
        OrganizationAnalyticData { total_products, active_resellers, verifications_this_month },
    )
}

use crate::model::ids_contains;

} // verus!

verus! {

use crate::model::UserResult;
use crate::users::fresh_user_v;

/// Registers the caller as a brand owner in one step: creates an
/// organization with a fresh keypair and grants the caller the
/// brand-owner role with the new organization appended to their
/// associations.
pub fn register_as_organization(state: &mut State, caller: &Id, input: OrganizationInput, now: u64) -> (r:
    UserResult)
    requires
        old(state).wf(),
    ensures
        final(state).wf(),
        ({
            let oid = unique_id_of(seq![4u8], now);
            let base = match old(state).users.get(caller@) {
                Some(u) => u@,
                None => fresh_user_v(caller@, now),
            };
            let expected = UserV {
                user_role: Some(UserRole::BrandOwner),
                org_ids: base.org_ids.push(oid),
                updated_at: now,
                updated_by: caller@,
                ..base
            };
            &&& r matches UserResult::User(ru) && ru@ == expected
            &&& final(state).users.get(caller@) matches Some(u2) && u2@ == expected
            &&& (old(state).organizations.get(oid) is None ==> (final(state).organizations.get(oid)
                matches Some(o) && created_org_matches(
                o@,
                oid,
                input.name@,
                input.description@,
                input.metadata.deep_view(),
                caller@,
                now,
            )))
            &&& forall|k2: Seq<u8>|
                k2 != oid ==> final(state).organizations.get(k2) == old(state).organizations.get(
                    k2,
                )
            &&& forall|k2: Seq<u8>|
                k2 != caller@ ==> final(state).users.get(k2) == old(state).users.get(k2)
            &&& final(state).products == old(state).products
        }),
{
    let org_public = create_organization(state, caller, input, now);
    let u = match state.users.get_ref(caller) {
        Some(u) => u,
        None => {
            // Creation registers the caller, so the account exists.
            return UserResult::Error(ApiError::internal_error("User registration failed"));
        },
    };
    let mut org_ids = crate::model::clone_ids(&u.org_ids);
    org_ids.push(org_public.id);
    let updated = User {
        org_ids,
        user_role: Some(UserRole::BrandOwner),
        updated_at: now,
        updated_by: caller.clone(),
        id: u.id.clone(),
        is_principal: u.is_principal,
        is_enabled: u.is_enabled,
        active_org_id: crate::model::clone_opt_id(&u.active_org_id),
        first_name: crate::model::clone_opt_string(&u.first_name),
        last_name: crate::model::clone_opt_string(&u.last_name),
        phone_no: crate::model::clone_opt_string(&u.phone_no),
        email: crate::model::clone_opt_string(&u.email),
        detail_meta: clone_metadatas(&u.detail_meta),
        session_keys: crate::model::clone_ids(&u.session_keys),
        created_at: u.created_at,
        created_by: u.created_by.clone(),
    };
    let r = updated.clone();
    proof {
        let oid = unique_id_of(seq![4u8], now);
        let base = match old(state).users.get(caller@) {
            Some(u) => u@,
            None => fresh_user_v(caller@, now),
        };
        assert(updated.org_ids.deep_view() =~= base.org_ids.push(oid));
        assert(updated@ =~= UserV {
            user_role: Some(UserRole::BrandOwner),
            org_ids: base.org_ids.push(oid),
            updated_at: now,
            updated_by: caller@,
            ..base
        });
    }
    state.users.insert(caller.clone(), updated);
    UserResult::User(r)
}

} // verus!
