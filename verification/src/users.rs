//! User accounts: registration, profile updates, role assignment, and
//! role/organization membership checks.

use vstd::prelude::*;

verus! {

use crate::api::ApiResponse;
use crate::auth::ensure_admin;
use crate::auth::spec_find_user;
use crate::errors::ApiError;
use crate::hexstr::hex_decode;
use crate::hexstr::hex_decoded;
use crate::hexstr::is_hex_seq;
use crate::ids::Id;
use crate::model::clone_ids;
use crate::model::clone_metadatas;
use crate::model::ids_contain;
use crate::model::ids_contains;
use crate::model::LogoutResponse;
use crate::model::Metadata;
use crate::model::MetadataV;
use crate::model::User;
use crate::model::UserDetailsInput;
use crate::model::UserResult;
use crate::model::UserRole;
use crate::model::UserV;
use crate::state::State;

/// The view of a freshly registered user: no role, no organizations,
/// enabled, stamped with the caller and time.
pub open spec fn fresh_user_v(caller: Seq<u8>, now: u64) -> UserV {
    UserV {
        id: caller,
        user_role: None,
        is_principal: false,
        is_enabled: true,
        org_ids: Seq::empty(),
        active_org_id: None,
        first_name: None,
        last_name: None,
        phone_no: None,
        email: None,
        detail_meta: Seq::empty(),
        session_keys: Seq::empty(),
        created_at: now,
        created_by: caller,
        updated_at: now,
        updated_by: caller,
    }
}

/// Builds the freshly registered user record.
fn fresh_user(caller: &Id, now: u64) -> (r: User)
    ensures
        r@ == fresh_user_v(caller@, now),
{
    let r = User {
        id: caller.clone(),
        user_role: None,
        is_principal: false,
        is_enabled: true,
        org_ids: Vec::new(),
        active_org_id: None,
        first_name: None,
        last_name: None,
        phone_no: None,
        email: None,
        detail_meta: Vec::new(),
        session_keys: Vec::new(),
        created_at: now,
        created_by: caller.clone(),
        updated_at: now,
        updated_by: caller.clone(),
    };
    assert(r@ =~= fresh_user_v(caller@, now));
    r
}

/// Registers the caller if not yet known and returns the account: an
/// existing record is returned unchanged, a fresh one starts with no role
/// and no organizations.
pub fn register(state: &mut State, caller: &Id, now: u64) -> (r: User)
    requires
        old(state).wf(),
    ensures
        final(state).wf(),
        match old(state).users.get(caller@) {
            Some(u) => r@ == u@ && *final(state) == *old(state),
            None => {
                &&& r@ == fresh_user_v(caller@, now)
                &&& final(state).users.get(caller@) matches Some(u2) && u2@ == r@
                &&& forall|k2: Seq<u8>|
                    k2 != caller@ ==> final(state).users.get(k2) == old(state).users.get(k2)
                &&& final(state).organizations == old(state).organizations
                &&& final(state).products == old(state).products
                &&& final(state).resellers == old(state).resellers
                &&& final(state).serial_numbers == old(state).serial_numbers
                &&& final(state).verifications == old(state).verifications
            },
        },
{
    match state.users.get_ref(caller) {
        Some(u) => {
            let r = u.clone();
            r
        },
        None => {
            let user = fresh_user(caller, now);
            let r = user.clone();
            state.users.insert(caller.clone(), user);
            r
        },
    }
}

/// The account stored under an identifier, if any. Returns a copy.
pub fn get_user_by_id(state: &State, id: &Id) -> (r: Option<User>)
    requires
        state.wf(),
    ensures
        r is Some <==> state.users.get(id@) is Some,
        r matches Some(u) ==> u@ == state.users.get(id@)->0@,
{
    match state.users.get_ref(id) {
        Some(u) => Some(u.clone()),
        None => None,
    }
}

/// The caller's own account, if registered. Returns a copy.
pub fn whoami(state: &State, caller: &Id) -> (r: Option<User>)
    requires
        state.wf(),
    ensures
        r is Some <==> state.users.get(caller@) is Some,
        r matches Some(u) ==> u@ == state.users.get(caller@)->0@,
{
    get_user_by_id(state, caller)
}

/// Replaces the caller's own profile details. `Error` (not found) exactly
/// when the caller is not registered; otherwise the stored record keeps
/// everything but the profile fields and the update stamp.
pub fn update_self_details(state: &mut State, caller: &Id, input: UserDetailsInput, now: u64) -> (r:
    UserResult)
    requires
        old(state).wf(),
    ensures
        final(state).wf(),
        match old(state).users.get(caller@) {
            Some(u) => {
                &&& r matches UserResult::User(ru)
                &&& {
                    let expected = UserV {
                        first_name: Some(input.first_name@),
                        last_name: Some(input.last_name@),
                        phone_no: Some(input.phone_no@),
                        email: Some(input.email@),
                        detail_meta: input.detail_meta.deep_view(),
                        updated_at: now,
                        updated_by: caller@,
                        ..u@
                    };
                    &&& ru@ == expected
                    &&& final(state).users.get(caller@) matches Some(u2) && u2@ == expected
                }
                &&& forall|k2: Seq<u8>|
                    k2 != caller@ ==> final(state).users.get(k2) == old(state).users.get(k2)
                &&& final(state).organizations == old(state).organizations
                &&& final(state).products == old(state).products
            },
            None => r matches UserResult::Error(e) && e is NotFound && *final(state) == *old(
                state,
            ),
        },
{
    match state.users.get_ref(caller) {
        Some(u) => {
            let updated = User {
                first_name: Some(input.first_name),
                last_name: Some(input.last_name),
                phone_no: Some(input.phone_no),
                email: Some(input.email),
                detail_meta: input.detail_meta,
                updated_at: now,
                updated_by: caller.clone(),
                id: u.id.clone(),
                user_role: u.user_role,
                is_principal: u.is_principal,
                is_enabled: u.is_enabled,
                org_ids: clone_ids(&u.org_ids),
                active_org_id: crate::model::clone_opt_id(&u.active_org_id),
                session_keys: clone_ids(&u.session_keys),
                created_at: u.created_at,
                created_by: u.created_by.clone(),
            };
            let r = updated.clone();
            proof {
                assert(updated@ =~= UserV {
                    first_name: Some(input.first_name@),
                    last_name: Some(input.last_name@),
                    phone_no: Some(input.phone_no@),
                    email: Some(input.email@),
                    detail_meta: input.detail_meta.deep_view(),
                    updated_at: now,
                    updated_by: caller@,
                    ..old(state).users.get(caller@)->0@
                });
            }
            state.users.insert(caller.clone(), updated);
            UserResult::User(r)
        },
        None => UserResult::Error(ApiError::not_found("User not found")),
    }
}

/// First value stored under a metadata key, if any.
pub open spec fn find_meta_value(metas: Seq<MetadataV>, key: Seq<char>) -> Option<Seq<char>>
    decreases metas.len(),
{
    if metas.len() == 0 {
        None
    } else if metas[0].key == key {
        Some(metas[0].value)
    } else {
        find_meta_value(metas.drop_first(), key)
    }
}

/// If no earlier pair has the key and the one at `i` does, the scan stops
/// there.
proof fn lemma_find_meta_hit(metas: Seq<MetadataV>, i: int, key: Seq<char>)
    requires
        0 <= i < metas.len(),
        forall|j: int| 0 <= j < i ==> (#[trigger] metas[j]).key != key,
        metas[i].key == key,
    ensures
        find_meta_value(metas, key) == Some(metas[i].value),
    decreases metas.len(),
{
    if i == 0 {
    } else {
        assert(metas.drop_first()[i - 1] == metas[i]);
        assert forall|j: int| 0 <= j < i - 1 implies (#[trigger] metas.drop_first()[j]).key
            != key by {
            assert(metas.drop_first()[j] == metas[j + 1]);
        }
        lemma_find_meta_hit(metas.drop_first(), i - 1, key);
    }
}

/// If no pair has the key, the scan finds nothing.
proof fn lemma_find_meta_miss(metas: Seq<MetadataV>, key: Seq<char>)
    requires
        forall|j: int| 0 <= j < metas.len() ==> (#[trigger] metas[j]).key != key,
    ensures
        find_meta_value(metas, key) is None,
    decreases metas.len(),
{
    if metas.len() == 0 {
    } else {
        assert forall|j: int| 0 <= j < metas.drop_first().len() implies (#[trigger]
        metas.drop_first()[j]).key != key by {
            assert(metas.drop_first()[j] == metas[j + 1]);
        }
        lemma_find_meta_miss(metas.drop_first(), key);
    }
}

/// Finds the first value stored under a metadata key. Returns a copy.
pub(crate) fn find_meta(metas: &Vec<Metadata>, key: &str) -> (r: Option<String>)
    ensures
        r is Some <==> find_meta_value(metas.deep_view(), key@) is Some,
        r matches Some(v) ==> Some(v@) == find_meta_value(metas.deep_view(), key@),
{
    let key_string = key.to_owned();
    let mut i: usize = 0;
    while i < metas.len()
        invariant
            i <= metas@.len(),
            key_string@ == key@,
            forall|j: int| 0 <= j < i ==> (#[trigger] metas.deep_view()[j]).key != key@,
        decreases metas@.len() - i,
    {
        if metas[i].key == key_string {
            proof {
                lemma_find_meta_hit(metas.deep_view(), i as int, key@);
            }
            return Some(metas[i].value.clone());
        }
        proof {
            assert(metas.deep_view()[i as int].key != key@);
        }
        i = i + 1;
    }
    proof {
        lemma_find_meta_miss(metas.deep_view(), key@);
    }
    None
}

/// The organization that a brand owner's pending selection names, when it
/// is well-formed, exists, and is not already associated.
pub open spec fn selected_org_to_add(s: State, u: UserV, role: UserRole) -> Option<Seq<u8>> {
    if role is BrandOwner {
        match find_meta_value(u.detail_meta, "selectedOrgId"@) {
            Some(v) => if is_hex_seq(v) && s.organizations.get(hex_decoded(v)) is Some
                && !ids_contain(u.org_ids, hex_decoded(v)) {
                Some(hex_decoded(v))
            } else {
                None
            },
            None => None,
        }
    } else {
        None
    }
}

/// Assigns the caller a role. Refused (`Unauthorized`) when the caller
/// already holds a non-admin role, or asks for the admin role without
/// being an admin; `Error` (not found) when the caller is not registered.
/// A brand owner with a pending organization selection in their metadata
/// has that organization attached when it exists.
pub fn set_self_role(state: &mut State, caller: &Id, role: UserRole, now: u64) -> (r: UserResult)
    requires
        old(state).wf(),
    ensures
        final(state).wf(),
        match old(state).users.get(caller@) {
            None => r matches UserResult::Error(e) && e is NotFound && *final(state) == *old(state),
            Some(u) => {
                if u@.user_role is Some && u@.user_role != Some(UserRole::Admin) {
                    r matches UserResult::Error(e) && e is Unauthorized && *final(state) == *old(
                        state,
                    )
                } else if role is Admin && u@.user_role != Some(UserRole::Admin) {
                    r matches UserResult::Error(e) && e is Unauthorized && *final(state) == *old(
                        state,
                    )
                } else {
                    let added = selected_org_to_add(*old(state), u@, role);
                    let expected = UserV {
                        user_role: Some(role),
                        org_ids: match added {
                            Some(org) => u@.org_ids.push(org),
                            None => u@.org_ids,
                        },
                        updated_at: now,
                        updated_by: caller@,
                        ..u@
                    };
                    &&& r matches UserResult::User(ru) && ru@ == expected
                    &&& final(state).users.get(caller@) matches Some(u2) && u2@ == expected
                    &&& forall|k2: Seq<u8>|
                        k2 != caller@ ==> final(state).users.get(k2) == old(state).users.get(k2)
                    &&& final(state).organizations == old(state).organizations
                    &&& final(state).products == old(state).products
                }
            },
        },
{
    let u = match state.users.get_ref(caller) {
        Some(u) => u,
        None => {
            return UserResult::Error(ApiError::not_found("User not found"));
        },
    };
    let is_admin = match u.user_role {
        Some(UserRole::Admin) => true,
        _ => false,
    };
    if u.user_role.is_some() && !is_admin {
        return UserResult::Error(
            ApiError::unauthorized("You already have a role assigned and cannot change it"),
        );
    }
    let role_is_admin = match role {
        UserRole::Admin => true,
        _ => false,
    };
    if role_is_admin && !is_admin {
        return UserResult::Error(ApiError::unauthorized("Only administrators can assign admin roles"));
    }

    let mut org_ids = clone_ids(&u.org_ids);
    let role_is_brand_owner = match role {
        UserRole::BrandOwner => true,
        _ => false,
    };
    if role_is_brand_owner {
        match find_meta(&u.detail_meta, "selectedOrgId") {
            Some(org_text) => {
                match hex_decode(org_text.as_str()) {
                    Some(bytes) => {
                        let org_id = Id::from_bytes(bytes);
                        let org_exists = state.organizations.get_ref(&org_id).is_some();
                        if org_exists && !ids_contains(&org_ids, &org_id) {
                            org_ids.push(org_id);
                        }
                    },
                    None => {},
                }
            },
            None => {},
        }
    }

    let u = match state.users.get_ref(caller) {
        Some(u) => u,
        None => {
            return UserResult::Error(ApiError::not_found("User not found"));
        },
    };
    let updated = User {
        user_role: Some(role),
        org_ids,
        updated_at: now,
        updated_by: caller.clone(),
        id: u.id.clone(),
        is_principal: u.is_principal,
        is_enabled: u.is_enabled,
        active_org_id: crate::model::clone_opt_id(&u.active_org_id),
        first_name: crate::model::clone_opt_string(&u.first_name),
        last_name: crate::model::clone_opt_string(&u.last_name),
        phone_no: crate::model::clone_opt_string(&u.phone_no),
        email: crate::model::clone_opt_string(&u.email),
        detail_meta: clone_metadatas(&u.detail_meta),
        session_keys: clone_ids(&u.session_keys),
        created_at: u.created_at,
        created_by: u.created_by.clone(),
    };
    let r = updated.clone();
    proof {
        let uv = old(state).users.get(caller@)->0@;
        let added = selected_org_to_add(*old(state), uv, role);
        assert(updated@ =~= UserV {
            user_role: Some(role),
            org_ids: match added {
                Some(org) => uv.org_ids.push(org),
                None => uv.org_ids,
            },
            updated_at: now,
            updated_by: caller@,
            ..uv
        });
    }
    state.users.insert(caller.clone(), updated);
    UserResult::User(r)
}

/// Creates a user record for someone else; administrators only. `Error`
/// (unauthorized) when the caller is not an admin, (already exists) when
/// the identifier is taken.
pub fn create_user(state: &mut State, caller: &Id, id: Id, input: UserDetailsInput, now: u64) -> (r:
    UserResult)
    requires
        old(state).wf(),
    ensures
        final(state).wf(),
        ({
            let caller_is_admin = spec_find_user(old(state).users, caller@) matches Some(cu)
                && cu.user_role == Some(UserRole::Admin);
            if !caller_is_admin {
                r matches UserResult::Error(e) && e is Unauthorized && *final(state) == *old(state)
            } else if old(state).users.get(id@) is Some {
                r matches UserResult::Error(e) && e is AlreadyExists && *final(state) == *old(state)
            } else {
                let expected = UserV {
                    first_name: Some(input.first_name@),
                    last_name: Some(input.last_name@),
                    phone_no: Some(input.phone_no@),
                    email: Some(input.email@),
                    detail_meta: input.detail_meta.deep_view(),
                    created_by: caller@,
                    updated_by: caller@,
                    ..fresh_user_v(id@, now)
                };
                &&& r matches UserResult::User(ru) && ru@ == expected
                &&& final(state).users.get(id@) matches Some(u2) && u2@ == expected
                &&& forall|k2: Seq<u8>|
                    k2 != id@ ==> final(state).users.get(k2) == old(state).users.get(k2)
                &&& final(state).organizations == old(state).organizations
                &&& final(state).products == old(state).products
            }
        }),
{
    if ensure_admin(&state.users, caller).is_err() {
        return UserResult::Error(ApiError::unauthorized("Only administrators can create users"));
    }
    if state.users.get_ref(&id).is_some() {
        return UserResult::Error(ApiError::already_exists("User already exists"));
    }
    let user = User {
        id: id.clone(),
        user_role: None,
        is_principal: false,
        is_enabled: true,
        org_ids: Vec::new(),
        active_org_id: None,
        first_name: Some(input.first_name),
        last_name: Some(input.last_name),
        phone_no: Some(input.phone_no),
        email: Some(input.email),
        detail_meta: input.detail_meta,
        session_keys: Vec::new(),
        created_at: now,
        created_by: caller.clone(),
        updated_at: now,
        updated_by: caller.clone(),
    };
    let r = user.clone();
    proof {
        assert(user@ =~= UserV {
            first_name: Some(input.first_name@),
            last_name: Some(input.last_name@),
            phone_no: Some(input.phone_no@),
            email: Some(input.email@),
            detail_meta: input.detail_meta.deep_view(),
            created_by: caller@,
            updated_by: caller@,
            ..fresh_user_v(id@, now)
        });
    }
    state.users.insert(id, user);
    UserResult::User(r)
}

/// Updates someone's profile details: oneself freely, anyone for an
/// admin. `Error` (unauthorized) otherwise, (not found) when the target
/// does not exist.
pub fn update_user(state: &mut State, caller: &Id, id: &Id, input: UserDetailsInput, now: u64) -> (r:
    UserResult)
    requires
        old(state).wf(),
    ensures
        final(state).wf(),
        ({
            let caller_is_admin = spec_find_user(old(state).users, caller@) matches Some(cu)
                && cu.user_role == Some(UserRole::Admin);
            if caller@ != id@ && !caller_is_admin {
                r matches UserResult::Error(e) && e is Unauthorized && *final(state) == *old(state)
            } else {
                match old(state).users.get(id@) {
                    None => r matches UserResult::Error(e) && e is NotFound && *final(state)
                        == *old(state),
                    Some(u) => {
                        let expected = UserV {
                            first_name: Some(input.first_name@),
                            last_name: Some(input.last_name@),
                            phone_no: Some(input.phone_no@),
                            email: Some(input.email@),
                            detail_meta: input.detail_meta.deep_view(),
                            updated_at: now,
                            updated_by: caller@,
                            ..u@
                        };
                        &&& r matches UserResult::User(ru) && ru@ == expected
                        &&& final(state).users.get(id@) matches Some(u2) && u2@ == expected
                        &&& forall|k2: Seq<u8>|
                            k2 != id@ ==> final(state).users.get(k2) == old(state).users.get(k2)
                        &&& final(state).organizations == old(state).organizations
                        &&& final(state).products == old(state).products
                    },
                }
            }
        }),
{
    if !(caller == id) {
        if ensure_admin(&state.users, caller).is_err() {
            return UserResult::Error(
                ApiError::unauthorized(
                    "You can only update your own user profile or must be an admin",
                ),
            );
        }
    }
    match state.users.get_ref(id) {
        Some(u) => {
            let updated = User {
                first_name: Some(input.first_name),
                last_name: Some(input.last_name),
                phone_no: Some(input.phone_no),
                email: Some(input.email),
                detail_meta: input.detail_meta,
                updated_at: now,
                updated_by: caller.clone(),
                id: u.id.clone(),
                user_role: u.user_role,
                is_principal: u.is_principal,
                is_enabled: u.is_enabled,
                org_ids: clone_ids(&u.org_ids),
                active_org_id: crate::model::clone_opt_id(&u.active_org_id),
                session_keys: clone_ids(&u.session_keys),
                created_at: u.created_at,
                created_by: u.created_by.clone(),
            };
            let r = updated.clone();
            proof {
                assert(updated@ =~= UserV {
                    first_name: Some(input.first_name@),
                    last_name: Some(input.last_name@),
                    phone_no: Some(input.phone_no@),
                    email: Some(input.email@),
                    detail_meta: input.detail_meta.deep_view(),
                    updated_at: now,
                    updated_by: caller@,
                    ..old(state).users.get(id@)->0@
                });
            }
            state.users.insert(id.clone(), updated);
            UserResult::User(r)
        },
        None => UserResult::Error(ApiError::not_found("User not found")),
    }
}

/// Replaces a user's organization associations; administrators only, and
/// every named organization must exist.
pub fn update_user_orgs(state: &mut State, caller: &Id, id: &Id, org_ids: Vec<Id>, now: u64) -> (r:
    UserResult)
    requires
        old(state).wf(),
    ensures
        final(state).wf(),
        ({
            let caller_is_admin = spec_find_user(old(state).users, caller@) matches Some(cu)
                && cu.user_role == Some(UserRole::Admin);
            if !caller_is_admin {
                r matches UserResult::Error(e) && e is Unauthorized && *final(state) == *old(state)
            } else if exists|j: int|
                0 <= j < org_ids@.len() && old(state).organizations.get(
                    #[trigger] org_ids@[j]@,
                ) is None {
                r matches UserResult::Error(e) && e is NotFound && *final(state) == *old(state)
            } else {
                match old(state).users.get(id@) {
                    None => r matches UserResult::Error(e) && e is NotFound && *final(state)
                        == *old(state),
                    Some(u) => {
                        let expected = UserV {
                            org_ids: org_ids.deep_view(),
                            updated_at: now,
                            updated_by: caller@,
                            ..u@
                        };
                        &&& r matches UserResult::User(ru) && ru@ == expected
                        &&& final(state).users.get(id@) matches Some(u2) && u2@ == expected
                        &&& forall|k2: Seq<u8>|
                            k2 != id@ ==> final(state).users.get(k2) == old(state).users.get(k2)
                        &&& final(state).organizations == old(state).organizations
                        &&& final(state).products == old(state).products
                    },
                }
            }
        }),
{
    if ensure_admin(&state.users, caller).is_err() {
        return UserResult::Error(
            ApiError::unauthorized("Only administrators can update user organizations"),
        );
    }
    let mut j: usize = 0;
    while j < org_ids.len()
        invariant
            old(state).wf(),
            *state == *old(state),
            j <= org_ids@.len(),
            spec_find_user(old(state).users, caller@) matches Some(cu) && cu.user_role == Some(
                UserRole::Admin,
            ),
            forall|j2: int|
                0 <= j2 < j ==> old(state).organizations.get(#[trigger] org_ids@[j2]@) is Some,
        decreases org_ids@.len() - j,
    {
        if state.organizations.get_ref(&org_ids[j]).is_none() {
            proof {
                let jj = j as int;
                assert(old(state).organizations.get(org_ids@[jj]@) is None);
                assert(0 <= jj < org_ids@.len() && old(state).organizations.get(
                    org_ids@[jj]@,
                ) is None);
            }
            return UserResult::Error(ApiError::not_found("Organization not found"));
        }
        j = j + 1;
    }
    match state.users.get_ref(id) {
        Some(u) => {
            let updated = User {
                org_ids,
                updated_at: now,
                updated_by: caller.clone(),
                id: u.id.clone(),
                user_role: u.user_role,
                is_principal: u.is_principal,
                is_enabled: u.is_enabled,
                active_org_id: crate::model::clone_opt_id(&u.active_org_id),
                first_name: crate::model::clone_opt_string(&u.first_name),
                last_name: crate::model::clone_opt_string(&u.last_name),
                phone_no: crate::model::clone_opt_string(&u.phone_no),
                email: crate::model::clone_opt_string(&u.email),
                detail_meta: clone_metadatas(&u.detail_meta),
                session_keys: clone_ids(&u.session_keys),
                created_at: u.created_at,
                created_by: u.created_by.clone(),
            };
            let r = updated.clone();
            proof {
                assert(updated@ =~= UserV {
                    org_ids: org_ids.deep_view(),
                    updated_at: now,
                    updated_by: caller@,
                    ..old(state).users.get(id@)->0@
                });
            }
            state.users.insert(id.clone(), updated);
            UserResult::User(r)
        },
        None => UserResult::Error(ApiError::not_found("User not found")),
    }
}

/// Whether the caller is a reseller associated with the organization.
/// Unregistered callers and other roles get `false`, not an error.
pub fn check_reseller_verification(state: &State, caller: &Id, org_id: &Id) -> (r: ApiResponse<
    bool,
>)
    requires
        state.wf(),
    ensures
        r.error is None,
        r.data == Some(
            state.users.get(caller@) matches Some(u) && u.user_role == Some(UserRole::Reseller)
                && ids_contain(u.org_ids.deep_view(), org_id@),
        ),
{
    match state.users.get_ref(caller) {
        Some(u) => {
            let is_reseller = match u.user_role {
                Some(UserRole::Reseller) => true,
                _ => false,
            };
            if is_reseller {
                ApiResponse::success(ids_contains(&u.org_ids, org_id))
            } else {
                ApiResponse::success(false)
            }
        },
        None => ApiResponse::success(false),
    }
}

/// The roles open to self-service sign-up.
pub fn get_available_roles() -> (r: ApiResponse<Vec<UserRole>>)
    ensures
        r.error is None,
        r.data matches Some(v) && v@ == seq![UserRole::BrandOwner, UserRole::Reseller],
{
    let mut roles: Vec<UserRole> = Vec::new();
    roles.push(UserRole::BrandOwner);
    roles.push(UserRole::Reseller);
    assert(roles@ =~= seq![UserRole::BrandOwner, UserRole::Reseller]);
    ApiResponse::success(roles)
}

/// Acknowledges a sign-out; sessions hold no server-side state to clear.
pub fn logout_user() -> (r: ApiResponse<LogoutResponse>)
    ensures
        r.error is None,
        r.data matches Some(l) && l.redirect_url is None,
{
    ApiResponse::success(
        LogoutResponse { message: String::from_str("Successfully logged out."), redirect_url: None },
    )
}

} // verus!
