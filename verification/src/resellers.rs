//! Resellers: registration under an organization, and the stateless
//! time-boxed challenge/response codes they present. Codes are signed
//! with the owning organization's key and verified against the public
//! key derived from it; expiry and clock-skew guards run before any
//! cryptography.

use vstd::prelude::*;

verus! {

use crate::api::ApiResponse;
use crate::api::GenerateResellerUniqueCodeRequest;
use crate::api::ResellerUniqueCodeResponse;
use crate::api::ResellerVerificationResponse;
use crate::api::ResellerVerificationStatus;
use crate::api::UserResponse;
use crate::api::VerifyResellerRequest;
use crate::crypto::pubkey_of;
use crate::crypto::sha256_of;
use crate::crypto::sig_of;
use crate::errors::ApiError;
use crate::hexstr::hex_decode;
use crate::hexstr::hex_decoded;
use crate::hexstr::hex_encode;
use crate::hexstr::hex_of;
use crate::hexstr::lemma_hex_of_is_hex_seq;
use crate::hexstr::lemma_hex_round_trip;
use crate::idmap::IdMap;
use crate::ids::Id;
use crate::model::org_public_of;
use crate::model::Reseller;
use crate::model::ResellerInput;
use crate::model::ResellerV;
use crate::model::User;
use crate::model::UserRole;
use crate::model::UserV;
use crate::protocol::build_reseller_msg;
use crate::protocol::check_code;
use crate::protocol::CodeCheck;
use crate::protocol::code_valid;
use crate::protocol::context_bytes;
use crate::protocol::reseller_msg;
use crate::protocol::sign_code;
use crate::state::State;
use crate::strutil::is_blank;

/// First reseller record, in store order, registered by this user.
pub open spec fn find_reseller_by_user(s: Seq<(Id, Reseller)>, user: Seq<u8>) -> Option<Reseller>
    decreases s.len(),
{
    if s.len() == 0 {
        None
    } else if s[0].1.user_id@ == user {
        Some(s[0].1)
    } else {
        find_reseller_by_user(s.drop_first(), user)
    }
}

/// If no earlier record belongs to the user and the one at `i` does, the
/// scan stops there.
proof fn lemma_find_reseller_hit(s: Seq<(Id, Reseller)>, i: int, user: Seq<u8>)
    requires
        0 <= i < s.len(),
        forall|j: int| 0 <= j < i ==> (#[trigger] s[j]).1.user_id@ != user,
        s[i].1.user_id@ == user,
    ensures
        find_reseller_by_user(s, user) == Some(s[i].1),
    decreases s.len(),
{
    if i == 0 {
    } else {
        assert(s.drop_first()[i - 1] == s[i]);
        assert forall|j: int| 0 <= j < i - 1 implies (#[trigger] s.drop_first()[j]).1.user_id@
            != user by {
            assert(s.drop_first()[j] == s[j + 1]);
        }
        lemma_find_reseller_hit(s.drop_first(), i - 1, user);
    }
}

/// If no record belongs to the user, the scan finds nothing.
proof fn lemma_find_reseller_miss(s: Seq<(Id, Reseller)>, user: Seq<u8>)
    requires
        forall|j: int| 0 <= j < s.len() ==> (#[trigger] s[j]).1.user_id@ != user,
    ensures
        find_reseller_by_user(s, user) is None,
    decreases s.len(),
{
    if s.len() == 0 {
    } else {
        assert forall|j: int| 0 <= j < s.drop_first().len() implies (#[trigger]
        s.drop_first()[j]).1.user_id@ != user by {
            assert(s.drop_first()[j] == s[j + 1]);
        }
        lemma_find_reseller_miss(s.drop_first(), user);
    }
}

/// The reseller record a user registered, if any. Returns a copy.
pub fn get_reseller_by_user_id(resellers: &IdMap<Reseller>, user_id: &Id) -> (r: Option<Reseller>)
    requires
        resellers.wf(),
    ensures
        r is Some <==> find_reseller_by_user(resellers.entries@, user_id@) is Some,
        r matches Some(res) ==> res@ == find_reseller_by_user(resellers.entries@, user_id@)->0@,
{
    let mut i: usize = 0;
    while i < resellers.entries.len()
        invariant
            resellers.wf(),
            i <= resellers.entries@.len(),
            forall|j: int| 0 <= j < i ==> (#[trigger] resellers.entries@[j]).1.user_id@ != user_id@,
        decreases resellers.entries@.len() - i,
    {
        if resellers.entries[i].1.user_id == *user_id {
            proof {
                lemma_find_reseller_hit(resellers.entries@, i as int, user_id@);
            }
            return Some(resellers.entries[i].1.clone());
        }
        i = i + 1;
    }
    proof {
        lemma_find_reseller_miss(resellers.entries@, user_id@);
    }
    None
}

/// Registers the caller as a reseller under an organization: the name
/// must not be blank, the caller must exist and hold no role yet, and
/// the organization must exist. The reseller record mirrors the
/// organization's verification key; the caller becomes a `Reseller`
/// associated with exactly that organization.
pub fn register_as_reseller_v2(state: &mut State, caller: &Id, input: ResellerInput, now: u64) -> (r:
    ApiResponse<UserResponse>)
    requires
        old(state).wf(),
    ensures
        final(state).wf(),
        final(state).organizations == old(state).organizations,
        final(state).products == old(state).products,
        final(state).serial_numbers == old(state).serial_numbers,
        final(state).verifications == old(state).verifications,
        if crate::strutil::all_space(input.name@) {
            r.error matches Some(e) && e is InvalidInput && *final(state) == *old(state)
        } else {
            match old(state).users.get(caller@) {
                None => r.error matches Some(e) && e is NotFound && *final(state) == *old(state),
                Some(u) => {
                    if u.user_role is Some {
                        r.error matches Some(e) && e is Unauthorized && *final(state) == *old(
                            state,
                        )
                    } else {
                        match old(state).organizations.get(input.org_id@) {
                            None => r.error matches Some(e) && e is NotFound && *final(state)
                                == *old(state),
                            Some(org) => {
                                let rid = crate::utils::unique_id_of(seq![4u8], now);
                                let sk = hex_decoded(org.private_key@);
                                let expected_user = UserV {
                                    user_role: Some(UserRole::Reseller),
                                    org_ids: seq![input.org_id@],
                                    updated_at: now,
                                    updated_by: caller@,
                                    ..u@
                                };
                                &&& r.data matches Some(resp) && resp.user@ == expected_user
                                &&& final(state).users.get(caller@) matches Some(u2) && u2@
                                    == expected_user
                                &&& (final(state).resellers.get(rid) matches Some(res)
                                    && res@.id == rid && res@.org_id == input.org_id@ && res@.name
                                    == input.name@ && res@.public_key == hex_of(pubkey_of(sk))
                                    && !res@.is_verified && res@.created_by == caller@)
                                &&& forall|k2: Seq<u8>|
                                    k2 != rid ==> final(state).resellers.get(k2) == old(
                                        state,
                                    ).resellers.get(k2)
                                &&& forall|k2: Seq<u8>|
                                    k2 != caller@ ==> final(state).users.get(k2) == old(
                                        state,
                                    ).users.get(k2)
                            },
                        }
                    }
                },
            }
        },
{
    if is_blank(input.name.as_str()) {
        return ApiResponse::error(ApiError::invalid_input("Reseller name cannot be empty"));
    }
    let u = match state.users.get_ref(caller) {
        Some(u) => u.clone(),
        None => {
            return ApiResponse::error(
                ApiError::not_found("User not found. Please register first."),
            );
        },
    };
    if u.user_role.is_some() {
        return ApiResponse::error(
            ApiError::unauthorized("User already has an assigned role"),
        );
    }
    let org_key = match state.organizations.get_ref(&input.org_id) {
        Some(o) => o.private_key.clone(),
        None => {
            return ApiResponse::error(ApiError::not_found("Organization not found"));
        },
    };
    let sk_bytes = match hex_decode(org_key.as_str()) {
        Some(b) => b,
        None => {
            return ApiResponse::error(
                ApiError::internal_error("Failed to process organization secret key"),
            );
        },
    };
    let pubkey = match crate::crypto::derive_pubkey(&sk_bytes) {
        Some(p) => p,
        None => {
            return ApiResponse::error(
                ApiError::internal_error("Malformed secret key for organization"),
            );
        },
    };
    let public_key_hex = hex_encode(&pubkey);

    let reseller_id = crate::utils::generate_unique_principal(&Id::anonymous(), now);
    let reseller = Reseller {
        id: reseller_id.clone(),
        user_id: caller.clone(),
        org_id: input.org_id.clone(),
        name: input.name,
        contact_email: None,
        contact_phone: None,
        ecommerce_urls: input.ecommerce_urls,
        additional_metadata: None,
        is_verified: false,
        certification_code: None,
        certification_timestamp: None,
        date_joined: now,
        metadata: input.metadata,
        public_key: public_key_hex,
        created_at: now,
        created_by: caller.clone(),
        updated_at: now,
        updated_by: caller.clone(),
    };
    state.resellers.insert(reseller_id, reseller);

    let mut org_ids: Vec<Id> = Vec::new();
    org_ids.push(input.org_id);
    let updated_user = User {
        user_role: Some(UserRole::Reseller),
        org_ids,
        updated_at: now,
        updated_by: caller.clone(),
        id: u.id,
        is_principal: u.is_principal,
        is_enabled: u.is_enabled,
        active_org_id: u.active_org_id,
        first_name: u.first_name,
        last_name: u.last_name,
        phone_no: u.phone_no,
        email: u.email,
        detail_meta: u.detail_meta,
        session_keys: u.session_keys,
        created_at: u.created_at,
        created_by: u.created_by,
    };
    let response_user = updated_user.clone();
    proof {
        assert(updated_user.org_ids.deep_view() =~= seq![input.org_id@]);
        assert(updated_user@ =~= UserV {
            user_role: Some(UserRole::Reseller),
            org_ids: seq![input.org_id@],
            updated_at: now,
            updated_by: caller@,
            ..old(state).users.get(caller@)->0@
        });
    }
    state.users.insert(caller.clone(), updated_user);
    ApiResponse::success(UserResponse { user: response_user })
}

/// The status a reseller code check comes out with, step by step:
/// expiry, then clock skew, then the party lookups, then the signature.
pub open spec fn reseller_verify_status(
    state: State,
    rid: Seq<u8>,
    code: Seq<char>,
    ts: u64,
    ctx: Option<Seq<char>>,
    now: u64,
) -> ResellerVerificationStatus {
    if now > ts + 300 {
        ResellerVerificationStatus::ExpiredCode
    } else if ts > now + 60 {
        ResellerVerificationStatus::InvalidCode
    } else {
        match state.resellers.get(rid) {
            None => ResellerVerificationStatus::ResellerNotFound,
            Some(res) => match state.organizations.get(res.org_id@) {
                None => ResellerVerificationStatus::OrganizationNotFound,
                Some(org) => {
                    let pk_hex = hex_of(pubkey_of(hex_decoded(org.private_key@)));
                    let msg = reseller_msg(rid, ts as nat, context_bytes(ctx));
                    if code_valid(pk_hex, msg, code) {
                        ResellerVerificationStatus::Success
                    } else {
                        ResellerVerificationStatus::InvalidCode
                    }
                },
            },
        }
    }
}

/// Checks a reseller code: `ExpiredCode` after five minutes,
/// `InvalidCode` for future timestamps beyond one minute of skew or a
/// failing signature, the two not-found statuses for missing parties,
/// `Success` otherwise. The status set is closed; nothing else comes
/// out, and no state changes.
pub fn verify_reseller_v2(state: &State, request: &VerifyResellerRequest, now: u64) -> (r:
    ApiResponse<ResellerVerificationResponse>)
    requires
        state.wf(),
        now <= u64::MAX - 60,
    ensures
        r.error is None,
        r.data matches Some(resp) && resp.status == reseller_verify_status(
            *state,
            request.reseller_id@,
            request.unique_code@,
            request.timestamp,
            request.context.deep_view(),
            now,
        ),
        r.data->0.status is Success || r.data->0.status is InvalidCode || r.data->0.status
            is ExpiredCode || r.data->0.status is ResellerNotFound || r.data->0.status
            is OrganizationNotFound,
        r.data->0.status is Success ==> {
            let res = state.resellers.get(request.reseller_id@)->0;
            &&& r.data->0.reseller matches Some(rr) && rr@ == res@
            &&& r.data->0.organization matches Some(o) && o@ == org_public_of(
                state.organizations.get(res.org_id@)->0@,
            )
        },
        // The expiry and clock-skew rejections are decided before any
        // lookup and carry no party data.
        now > request.timestamp + 300 ==> (r.data->0.status is ExpiredCode
            && r.data->0.organization is None && r.data->0.reseller is None),
        (now <= request.timestamp + 300 && request.timestamp > now + 60) ==> (
        r.data->0.status is InvalidCode && r.data->0.organization is None
            && r.data->0.reseller is None),
        // A failing signature still identifies the parties it was checked
        // against.
        (now <= request.timestamp + 300 && request.timestamp <= now + 60
            && state.resellers.get(request.reseller_id@) is Some && state.organizations.get(
            state.resellers.get(request.reseller_id@)->0.org_id@,
        ) is Some && r.data->0.status is InvalidCode) ==> {
            let res = state.resellers.get(request.reseller_id@)->0;
            &&& r.data->0.reseller matches Some(rr) && rr@ == res@
            &&& r.data->0.organization matches Some(o) && o@ == org_public_of(
                state.organizations.get(res.org_id@)->0@,
            )
        },
{
    let ts = request.timestamp;
    // 1. Expiry: codes live for five minutes.
    let expired = if ts <= u64::MAX - 300 {
        now > ts + 300
    } else {
        false
    };
    if expired {
        return ApiResponse::success(
            ResellerVerificationResponse {
                status: ResellerVerificationStatus::ExpiredCode,
                organization: None,
                reseller: None,
            },
        );
    }
    // 2. Clock skew: a timestamp more than a minute ahead is refused.
    if ts > now + 60 {
        return ApiResponse::success(
            ResellerVerificationResponse {
                status: ResellerVerificationStatus::InvalidCode,
                organization: None,
                reseller: None,
            },
        );
    }
    // 3. The parties.
    let reseller = match state.resellers.get_ref(&request.reseller_id) {
        Some(res) => res.clone(),
        None => {
            return ApiResponse::success(
                ResellerVerificationResponse {
                    status: ResellerVerificationStatus::ResellerNotFound,
                    organization: None,
                    reseller: None,
                },
            );
        },
    };
    let organization = match state.organizations.get_ref(&reseller.org_id) {
        Some(o) => o.clone(),
        None => {
            return ApiResponse::success(
                ResellerVerificationResponse {
                    status: ResellerVerificationStatus::OrganizationNotFound,
                    organization: None,
                    reseller: Some(reseller),
                },
            );
        },
    };
    // 4. The organization's verification key; the store invariant
    //    guarantees the stored secret key is usable.
    let sk_bytes = match hex_decode(organization.private_key.as_str()) {
        Some(b) => b,
        None => {
            return ApiResponse::success(
                ResellerVerificationResponse {
                    status: ResellerVerificationStatus::InternalError,
                    organization: Some(crate::model::OrganizationPublic::from(organization)),
                    reseller: Some(reseller),
                },
            );
        },
    };
    let pubkey = match crate::crypto::derive_pubkey(&sk_bytes) {
        Some(p) => p,
        None => {
            return ApiResponse::success(
                ResellerVerificationResponse {
                    status: ResellerVerificationStatus::InternalError,
                    organization: Some(crate::model::OrganizationPublic::from(organization)),
                    reseller: Some(reseller),
                },
            );
        },
    };
    let pk_hex = hex_encode(&pubkey);
    proof {
        lemma_hex_of_is_hex_seq(pubkey_of(hex_decoded(organization.private_key@)));
        lemma_hex_round_trip(pubkey_of(hex_decoded(organization.private_key@)));
    }
    // 5. The signature over the canonical reseller message.
    let msg = build_reseller_msg(&request.reseller_id, ts, &request.context);
    let check = check_code(pk_hex.as_str(), &msg, request.unique_code.as_str());
    match check {
        CodeCheck::Valid => ApiResponse::success(
            ResellerVerificationResponse {
                status: ResellerVerificationStatus::Success,
                organization: Some(crate::model::OrganizationPublic::from(organization)),
                reseller: Some(reseller),
            },
        ),
        _ => ApiResponse::success(
            ResellerVerificationResponse {
                status: ResellerVerificationStatus::InvalidCode,
                organization: Some(crate::model::OrganizationPublic::from(organization)),
                reseller: Some(reseller),
            },
        ),
    }
}

/// Generates a reseller code: signs `"{reseller_id}_{now}_{context}"`
/// with the owning organization's key and hands back the hex signature
/// bound to the generation timestamp. The code verifies under the
/// organization's derived public key while it is fresh.
pub fn generate_reseller_unique_code_v2(
    state: &State,
    request: GenerateResellerUniqueCodeRequest,
    now: u64,
) -> (r: ApiResponse<ResellerUniqueCodeResponse>)
    requires
        state.wf(),
    ensures
        match state.resellers.get(request.reseller_id@) {
            None => r.error matches Some(e) && e is NotFound && r.data is None,
            Some(res) => match state.organizations.get(res.org_id@) {
                None => r.error matches Some(e) && e is NotFound && r.data is None,
                Some(org) => {
                    let sk = hex_decoded(org.private_key@);
                    let msg = reseller_msg(
                        request.reseller_id@,
                        now as nat,
                        context_bytes(request.context.deep_view()),
                    );
                    &&& r.error is None
                    &&& r.data matches Some(resp)
                    &&& resp.unique_code@ == hex_of(sig_of(sk, sha256_of(msg)))
                    &&& code_valid(hex_of(pubkey_of(sk)), msg, resp.unique_code@)
                    &&& resp.reseller_id@ == request.reseller_id@
                    &&& resp.timestamp == now
                    &&& resp.context.deep_view() == request.context.deep_view()
                },
            },
        },
{
    let org_id = match state.resellers.get_ref(&request.reseller_id) {
        Some(res) => res.org_id.clone(),
        None => {
            return ApiResponse::error(ApiError::not_found("Reseller not found"));
        },
    };
    let private_key = match state.organizations.get_ref(&org_id) {
        Some(o) => o.private_key.clone(),
        None => {
            return ApiResponse::error(ApiError::not_found("Organization not found for reseller"));
        },
    };
    let msg = build_reseller_msg(&request.reseller_id, now, &request.context);
    let code = match sign_code(private_key.as_str(), &msg) {
        Ok(c) => c,
        Err(_) => {
            return ApiResponse::error(
                ApiError::internal_error("Malformed secret key for organization"),
            );
        },
    };
    ApiResponse::success(
        ResellerUniqueCodeResponse {
            unique_code: code,
            reseller_id: request.reseller_id,
            timestamp: now,
            context: request.context,
        },
    )
}

/// A freshly generated reseller code runs its course: it checks out
/// `Success` at any time within its five-minute life (clock skew
/// permitting) and `ExpiredCode` once the five minutes have passed,
/// whatever the code says. The hypotheses are what
/// `generate_reseller_unique_code_v2` promises of its result.
pub proof fn lemma_reseller_code_lifecycle(
    state: State,
    rid: Seq<u8>,
    ctx: Option<Seq<char>>,
    t: u64,
    within: u64,
    after: u64,
    code: Seq<char>,
)
    requires
        state.resellers.get(rid) is Some,
        state.organizations.get(state.resellers.get(rid)->0.org_id@) is Some,
        code_valid(
            hex_of(
                pubkey_of(
                    hex_decoded(
                        state.organizations.get(
                            state.resellers.get(rid)->0.org_id@,
                        )->0.private_key@,
                    ),
                ),
            ),
            reseller_msg(rid, t as nat, context_bytes(ctx)),
            code,
        ),
        within <= t + 300,
        t <= within + 60,
        after > t + 300,
    ensures
        reseller_verify_status(state, rid, code, t, ctx, within)
            == ResellerVerificationStatus::Success,
        reseller_verify_status(state, rid, code, t, ctx, after)
            == ResellerVerificationStatus::ExpiredCode,
{
}

/// The projection from a stored reseller to its view.
pub open spec fn reseller_proj() -> spec_fn((Id, Reseller)) -> ResellerV {
    |e: (Id, Reseller)| e.1@
}

/// Whether a stored reseller belongs to the organization.
pub open spec fn reseller_of_org_pred(org: Seq<u8>) -> spec_fn((Id, Reseller)) -> bool {
    |e: (Id, Reseller)| e.1.org_id@ == org
}

/// Lists an organization's resellers; an unauthorized caller gets the
/// empty list, not an error.
pub fn list_resellers_by_org_id(state: &State, caller: &Id, org_id: &Id) -> (r: Vec<Reseller>)
    requires
        state.wf(),
    ensures
        if crate::auth::spec_authorized_for_org(
            state.users,
            state.organizations,
            caller@,
            org_id@,
            crate::auth::Permission::ReadOrganization,
        ) {
            r.deep_view() == state.resellers.entries@.filter(reseller_of_org_pred(org_id@)).map_values(
                reseller_proj(),
            )
        } else {
            r@.len() == 0
        },
{
    if crate::auth::authorize_for_organization(
        &state.users,
        &state.organizations,
        caller,
        org_id,
        crate::auth::Permission::ReadOrganization,
    ).is_err() {
        return Vec::new();
    }
    let ghost pred = reseller_of_org_pred(org_id@);
    let mut result: Vec<Reseller> = Vec::new();
    let mut i: usize = 0;
    proof {
        crate::idmap::lemma_filter_take_zero(state.resellers.entries@, pred);
        assert(result.deep_view() =~~= state.resellers.entries@.take(0).filter(pred).map_values(
            reseller_proj(),
        ));
    }
    while i < state.resellers.entries.len()
        invariant
            state.wf(),
            i <= state.resellers.entries@.len(),
            result.deep_view() =~~= state.resellers.entries@.take(i as int).filter(
                reseller_of_org_pred(org_id@),
            ).map_values(reseller_proj()),
        decreases state.resellers.entries@.len() - i,
    {
        let ghost entries = state.resellers.entries@;
        let ghost pred = reseller_of_org_pred(org_id@);
        let ghost prev = result.deep_view();
        proof {
            crate::idmap::lemma_filter_take_step(entries, i as int, pred);
        }
        if state.resellers.entries[i].1.org_id == *org_id {
            let ghost prevv = result@;
            result.push(state.resellers.entries[i].1.clone());
            proof {
                let fprev = entries.take(i as int).filter(pred);
                let fnew = entries.take(i + 1).filter(pred);
                assert(fnew == fprev.push(entries[i as int]));
                assert(prev == fprev.map_values(reseller_proj()));
                assert(prev.len() == fprev.len());
                assert(prevv.len() == prev.len());
                assert(result@.len() == prevv.len() + 1);
                assert forall|j: int| 0 <= j < fnew.len() implies fnew.map_values(
                    reseller_proj(),
                )[j] == result.deep_view()[j] by {
                    assert(result.deep_view()[j] == result@[j]@);
                    if j < fprev.len() {
                        assert(fnew[j] == fprev[j]);
                        assert(result@[j] == prevv[j]);
                        assert(result@[j]@ == prev[j]);
                        assert(prev[j] == fprev.map_values(reseller_proj())[j]);
                    } else {
                        assert(fnew[j] == entries[i as int]);
                    }
                }
                assert(result.deep_view() =~~= entries.take(i + 1).filter(pred).map_values(
                    reseller_proj(),
                ));
            }
        } else {
            proof {
                assert(entries.take(i + 1).filter(pred) == entries.take(i as int).filter(pred));
                assert(result.deep_view() =~~= entries.take(i + 1).filter(pred).map_values(
                    reseller_proj(),
                ));
            }
        }
        i = i + 1;
    }
    proof {
        assert(state.resellers.entries@.take(state.resellers.entries@.len() as int)
            =~= state.resellers.entries@);
    }
    result
}

/// Whether a reseller matches a name-or-identifier filter: the name
/// matches case-insensitively after trimming the filter. (Identifiers
/// are opaque bytes here, so only the name is searched.)
pub open spec fn reseller_name_pred(filter: Seq<char>) -> spec_fn((Id, Reseller)) -> bool {
    |e: (Id, Reseller)| crate::strutil::contains_sub(
        crate::strutil::lower_of(e.1.name@),
        crate::strutil::lower_of(crate::strutil::trim_of(filter)),
    )
}

/// Lists the resellers whose names contain the filter,
/// case-insensitively; the filter is trimmed first.
pub fn find_resellers_by_name_or_id(state: &State, name: &str) -> (r: Vec<Reseller>)
    requires
        state.wf(),
    ensures
        r.deep_view() == state.resellers.entries@.filter(reseller_name_pred(name@)).map_values(
            reseller_proj(),
        ),
{
    let filter = crate::strutil::trim_str(name);
    let ghost pred = reseller_name_pred(name@);
    let mut result: Vec<Reseller> = Vec::new();
    let mut i: usize = 0;
    proof {
        crate::idmap::lemma_filter_take_zero(state.resellers.entries@, pred);
        assert(result.deep_view() =~~= state.resellers.entries@.take(0).filter(pred).map_values(
            reseller_proj(),
        ));
    }
    while i < state.resellers.entries.len()
        invariant
            state.wf(),
            filter@ == crate::strutil::trim_of(name@),
            i <= state.resellers.entries@.len(),
            result.deep_view() =~~= state.resellers.entries@.take(i as int).filter(
                reseller_name_pred(name@),
            ).map_values(reseller_proj()),
        decreases state.resellers.entries@.len() - i,
    {
        let ghost entries = state.resellers.entries@;
        let ghost pred = reseller_name_pred(name@);
        let ghost prev = result.deep_view();
        let matches_filter = crate::strutil::contains_ci(
            state.resellers.entries[i].1.name.as_str(),
            filter.as_str(),
        );
        proof {
            assert(matches_filter == pred(entries[i as int]));
            crate::idmap::lemma_filter_take_step(entries, i as int, pred);
        }
        if matches_filter {
            let ghost prevv = result@;
            result.push(state.resellers.entries[i].1.clone());
            proof {
                let fprev = entries.take(i as int).filter(pred);
                let fnew = entries.take(i + 1).filter(pred);
                assert(fnew == fprev.push(entries[i as int]));
                assert(prev == fprev.map_values(reseller_proj()));
                assert(prev.len() == fprev.len());
                assert(prevv.len() == prev.len());
                assert(result@.len() == prevv.len() + 1);
                assert forall|j: int| 0 <= j < fnew.len() implies fnew.map_values(
                    reseller_proj(),
                )[j] == result.deep_view()[j] by {
                    assert(result.deep_view()[j] == result@[j]@);
                    if j < fprev.len() {
                        assert(fnew[j] == fprev[j]);
                        assert(result@[j] == prevv[j]);
                        assert(result@[j]@ == prev[j]);
                        assert(prev[j] == fprev.map_values(reseller_proj())[j]);
                    } else {
                        assert(fnew[j] == entries[i as int]);
                    }
                }
                assert(result.deep_view() =~~= entries.take(i + 1).filter(pred).map_values(
                    reseller_proj(),
                ));
            }
        } else {
            proof {
                assert(entries.take(i + 1).filter(pred) == entries.take(i as int).filter(pred));
                assert(result.deep_view() =~~= entries.take(i + 1).filter(pred).map_values(
                    reseller_proj(),
                ));
            }
        }
        i = i + 1;
    }
    proof {
        assert(state.resellers.entries@.take(state.resellers.entries@.len() as int)
            =~= state.resellers.entries@);
    }
    result
}

} // verus!
