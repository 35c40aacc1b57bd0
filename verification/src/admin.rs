//! Administrative operations: the configuration strings for the external
//! review integration, and the bulk storage reset.

use vstd::prelude::*;

verus! {

use crate::api::ApiResponse;
use crate::api::ResetStorageResponse;
use crate::auth::ensure_admin;
use crate::auth::spec_find_user;
use crate::errors::ApiError;
use crate::ids::Id;
use crate::model::UserRole;
use crate::state::State;
use crate::strutil::is_blank;

/// Whether the caller resolves to an administrator.
pub open spec fn spec_is_admin(state: State, caller: Seq<u8>) -> bool {
    spec_find_user(state.users, caller) matches Some(u) && u.user_role == Some(UserRole::Admin)
}

/// Stores the external review integration's key; administrators only,
/// and the key must not be blank.
pub fn set_openai_api_key(state: &mut State, caller: &Id, key: String) -> (r: ApiResponse<()>)
    requires
        old(state).wf(),
    ensures
        final(state).wf(),
        if !spec_is_admin(*old(state), caller@) {
            r.error matches Some(e) && (e is NotFound || e is Unauthorized) && *final(state)
                == *old(state)
        } else if crate::strutil::all_space(key@) {
            r.error matches Some(e) && e is InvalidInput && *final(state) == *old(state)
        } else {
            &&& r.error is None
            &&& final(state).config_openai_api_key@ == key@
            &&& final(state).organizations == old(state).organizations
            &&& final(state).users == old(state).users
        },
{
    if let Err(e) = ensure_admin(&state.users, caller) {
        return ApiResponse::error(e);
    }
    if is_blank(key.as_str()) {
        return ApiResponse::error(ApiError::invalid_input("API key cannot be empty"));
    }
    state.config_openai_api_key = key;
    ApiResponse::success(())
}

/// Reads the stored integration key; administrators only.
pub fn get_openai_api_key(state: &State, caller: &Id) -> (r: ApiResponse<String>)
    requires
        state.wf(),
    ensures
        if spec_is_admin(*state, caller@) {
            r.data matches Some(k) && k@ == state.config_openai_api_key@
        } else {
            r.error matches Some(e) && (e is NotFound || e is Unauthorized)
        },
{
    if let Err(e) = ensure_admin(&state.users, caller) {
        return ApiResponse::error(e);
    }
    ApiResponse::success(state.config_openai_api_key.clone())
}

/// Stores the external scraper's URL; administrators only, and the URL
/// must not be blank.
pub fn set_scraper_url(state: &mut State, caller: &Id, url: String) -> (r: ApiResponse<()>)
    requires
        old(state).wf(),
    ensures
        final(state).wf(),
        if !spec_is_admin(*old(state), caller@) {
            r.error matches Some(e) && (e is NotFound || e is Unauthorized) && *final(state)
                == *old(state)
        } else if crate::strutil::all_space(url@) {
            r.error matches Some(e) && e is InvalidInput && *final(state) == *old(state)
        } else {
            &&& r.error is None
            &&& final(state).config_scraper_url@ == url@
            &&& final(state).organizations == old(state).organizations
            &&& final(state).users == old(state).users
        },
{
    if let Err(e) = ensure_admin(&state.users, caller) {
        return ApiResponse::error(e);
    }
    if is_blank(url.as_str()) {
        return ApiResponse::error(ApiError::invalid_input("Scraper URL cannot be empty"));
    }
    state.config_scraper_url = url;
    ApiResponse::success(())
}

/// Reads the stored scraper URL; administrators only.
pub fn get_scraper_url(state: &State, caller: &Id) -> (r: ApiResponse<String>)
    requires
        state.wf(),
    ensures
        if spec_is_admin(*state, caller@) {
            r.data matches Some(u) && u@ == state.config_scraper_url@
        } else {
            r.error matches Some(e) && (e is NotFound || e is Unauthorized)
        },
{
    if let Err(e) = ensure_admin(&state.users, caller) {
        return ApiResponse::error(e);
    }
    ApiResponse::success(state.config_scraper_url.clone())
}

/// Clears every collection and both configuration cells, each whole:
/// organizations, products, users, resellers, serial numbers,
/// verifications, rate limits, and the reward ledger.
pub fn reset_all_stable_storage(state: &mut State) -> (r: ApiResponse<ResetStorageResponse>)
    requires
        old(state).wf(),
    ensures
        final(state).wf(),
        r.error is None,
        forall|k: Seq<u8>| final(state).organizations.get(k) is None,
        forall|k: Seq<u8>| final(state).products.get(k) is None,
        forall|k: Seq<u8>| final(state).users.get(k) is None,
        forall|k: Seq<u8>| final(state).resellers.get(k) is None,
        forall|k: Seq<u8>| final(state).serial_numbers.get(k) is None,
        forall|k: Seq<u8>| final(state).verifications.get(k) is None,
        forall|u: Seq<u8>, p: Seq<u8>| final(state).rate_limits.get(u, p) is None,
        forall|u: Seq<u8>, p: Seq<u8>| final(state).rewards.spec_is_first(u, p),
        forall|u: Seq<u8>| final(state).rewards.user_rewards.get(u) is None,
        forall|p: Seq<u8>| final(state).rewards.promotions.get(p) is None,
        final(state).config_openai_api_key@ == Seq::<char>::empty(),
        final(state).config_scraper_url@ == Seq::<char>::empty(),
{
    state.organizations.clear_all();
    state.products.clear_all();
    state.users.clear_all();
    state.resellers.clear_all();
    state.serial_numbers.clear_all();
    state.verifications.clear_all();
    state.rate_limits.reset_rate_limits();
    state.rewards.reset_rewards_storage();
    state.config_openai_api_key = String::new();
    state.config_scraper_url = String::new();
    ApiResponse::success(
        ResetStorageResponse {
            message: String::from_str("All stable storage has been successfully reset."),
        },
    )
}

} // verus!
