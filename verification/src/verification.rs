//! The verify and redeem operations: a code is checked against the
//! canonical message for the *persisted* print version — never a
//! client-asserted one — after the rate limit admits the attempt; a
//! successful check is classified, recorded and rewarded. Redemption
//! re-verifies the code, then claims the first-verification reward
//! exactly once.

use vstd::prelude::*;

verus! {

use crate::api::ApiResponse;
use crate::api::ProductVerificationEnhancedResponse;
use crate::api::RateLimitInfo;
use crate::api::RedeemRewardRequest;
use crate::api::RedeemRewardResponse;
use crate::api::VerifyProductEnhancedRequest;
use crate::errors::ApiError;
use crate::hexstr::hex_encode;
use crate::hexstr::hex_of;
use crate::hexstr::lemma_hex_of_is_hex_seq;
use crate::hexstr::lemma_hex_round_trip;
use crate::ids::dec_bytes;
use crate::ids::dec_chars_of;
use crate::ids::Id;
use crate::ids::lemma_dec_bytes_ascii;
use crate::model::clone_verifications;
use crate::model::ProductVerification;
use crate::model::ProductVerificationStatus;
use crate::model::ProductVerificationV;
use crate::protocol::build_product_msg;
use crate::protocol::check_code;
use crate::protocol::CodeCheck;
use crate::protocol::code_valid;
use crate::protocol::product_msg;
use crate::rate_limiter::effective_attempts;
use crate::rate_limiter::effective_window_start;
use crate::rewards::base_points;
use crate::state::find_serial;
use crate::state::find_serial_exec;
use crate::state::find_verification_index;
use crate::state::pv_find_index;
use crate::state::State;
use crate::strutil::ascii_to_string;
use crate::utils::generate_unique_principal;
use crate::MAX_ATTEMPTS_PER_WINDOW;

/// Whether a client-supplied timestamp is close enough to the server
/// clock: within five minutes either way, and always when absent.
pub open spec fn client_ts_ok(ts: Option<u64>, now: u64) -> bool {
    match ts {
        Some(t) => if now >= t {
            now - t <= 300
        } else {
            t - now <= 300
        },
        None => true,
    }
}

/// Whether a verification request passes every check: the claimed
/// version matches the persisted one, the client timestamp (if any) is
/// within five minutes of the clock, and the code is the valid signature
/// of the canonical message for the persisted version under the
/// product's key.
pub open spec fn product_verify_ok(
    product_pk: Seq<char>,
    pid: Seq<u8>,
    sn: Seq<u8>,
    stored_version: u8,
    claimed_version: u8,
    code: Seq<char>,
    ts: Option<u64>,
    now: u64,
) -> bool {
    &&& claimed_version == stored_version
    &&& client_ts_ok(ts, now)
    &&& code_valid(product_pk, product_msg(pid, sn, stored_version as nat), code)
}

/// A code printed for a version verifies at that version: while the
/// persisted print version still equals the version the code was signed
/// for, a request claiming that version (with a sane or absent client
/// timestamp) passes every verification check. The hypothesis is exactly
/// what `print_product_serial_number` promises of the code it returns.
pub proof fn lemma_printed_code_verifies(
    product_pk: Seq<char>,
    pid: Seq<u8>,
    sn: Seq<u8>,
    v: u8,
    code: Seq<char>,
    ts: Option<u64>,
    now: u64,
)
    requires
        code_valid(product_pk, product_msg(pid, sn, v as nat), code),
        client_ts_ok(ts, now),
    ensures
        product_verify_ok(product_pk, pid, sn, v, v, code, ts, now),
{
}

/// Redemption claims a first-verification reward exactly once: the claim
/// marks the stored record with its transaction identifier, and a second
/// attempt on the now-claimed record reports failure while surfacing the
/// very same identifier. The hypotheses are what `redeem_product_reward`
/// promises of the record it stores and of a response to a claimed
/// record.
pub proof fn lemma_redeem_claim_idempotent(
    v: crate::model::ProductVerificationV,
    stored: crate::model::ProductVerificationV,
    second_tx: Option<Seq<char>>,
)
    requires
        !v.reward_claimed,
        v.status is FirstVerification,
        stored == pv_claimed(v, tx_id_of(v.id)),
        second_tx == stored.reward_transaction_id,
    ensures
        stored.reward_claimed,
        second_tx == Some(tx_id_of(v.id)),
{
}

/// What a successful verification stores and reports.
pub open spec fn fresh_verification_v(
    id: Seq<u8>,
    pid: Seq<u8>,
    sn: Seq<u8>,
    version: u8,
    status: ProductVerificationStatus,
    caller: Seq<u8>,
    now: u64,
) -> ProductVerificationV {
    ProductVerificationV {
        id: id,
        product_id: pid,
        serial_no: sn,
        print_version: version,
        metadata: Seq::empty(),
        created_at: now,
        created_by: caller,
        status: status,
        reward_claimed: false,
        reward_transaction_id: None,
    }
}

/// Verifies a product code: resolves the serial number, records the
/// attempt against the rate limit, rejects a stale claimed version or a
/// far-off client timestamp as `Invalid`, checks the signature over the
/// canonical message for the persisted version, and on success
/// classifies the scan, credits rewards and appends the verification
/// record.
pub fn verify_product_v2(
    state: &mut State,
    caller: &Id,
    request: &VerifyProductEnhancedRequest,
    now: u64,
) -> (r: ApiResponse<ProductVerificationEnhancedResponse>)
    requires
        old(state).wf(),
        now <= u64::MAX - 86400,
    ensures
        final(state).wf(),
        final(state).organizations == old(state).organizations,
        final(state).products == old(state).products,
        final(state).users == old(state).users,
        final(state).resellers == old(state).resellers,
        final(state).serial_numbers == old(state).serial_numbers,
        final(state).config_openai_api_key == old(state).config_openai_api_key,
        final(state).config_scraper_url == old(state).config_scraper_url,
        match find_serial(old(state).serial_numbers.entries@, request.serial_no@) {
            None => r.error matches Some(e) && e is NotFound && *final(state) == *old(state),
            Some(found) => {
                let pid = found.0@;
                let psn = found.1;
                let eff = effective_attempts(old(state).rate_limits.get(caller@, pid), now);
                let reset = effective_window_start(old(state).rate_limits.get(caller@, pid), now)
                    + crate::WINDOW_DURATION_SECONDS;
                if eff >= MAX_ATTEMPTS_PER_WINDOW {
                    // The refusal is retryable and carries its reset time.
                    &&& r.error matches Some(e) && e is InvalidInput && crate::errors::error_message(
                        e,
                    ) == "Rate limit exceeded. Try again after "@ + dec_chars_of(reset as nat)
                    &&& final(state).rate_limits.entries@ == old(state).rate_limits.entries@
                    &&& final(state).verifications == old(state).verifications
                    &&& final(state).rewards == old(state).rewards
                } else {
                    let product = old(state).products.get(pid)->0;
                    let ok = product_verify_ok(
                        product.public_key@,
                        pid,
                        request.serial_no@,
                        psn.print_version,
                        request.print_version,
                        request.unique_code@,
                        request.timestamp,
                        now,
                    );
                    &&& (final(state).rate_limits.get(caller@, pid) matches Some(e2)
                        && e2.attempts == eff + 1 && e2.last_attempt == now)
                    &&& forall|u2: Seq<u8>, p2: Seq<u8>|
                        !(u2 == caller@ && p2 == pid) ==> final(state).rate_limits.get(u2, p2)
                            == old(state).rate_limits.get(u2, p2)
                    &&& if !ok {
                        &&& r.error is None
                        &&& r.data matches Some(resp) && resp.status is Invalid
                            && resp.verification is None && resp.rewards is None
                            && resp.expiration is None
                        &&& final(state).verifications == old(state).verifications
                        &&& final(state).rewards == old(state).rewards
                    } else {
                        let first = old(state).rewards.spec_is_first(caller@, pid);
                        let status = if first {
                            ProductVerificationStatus::FirstVerification
                        } else {
                            ProductVerificationStatus::MultipleVerification
                        };
                        &&& r.error is None
                        &&& r.data matches Some(resp) && resp.status == status
                        &&& r.data->0.rewards matches Some(rw) && rw.is_first_verification == first
                            && rw.points == base_points(status) + old(
                            state,
                        ).rewards.spec_promo_points(pid)
                        &&& r.data->0.verification matches Some(v) && v@
                            == fresh_verification_v(
                            v@.id,
                            pid,
                            request.serial_no@,
                            psn.print_version,
                            status,
                            caller@,
                            now,
                        )
                        &&& r.data->0.expiration == Some((now + 86400) as u64)
                        &&& (final(state).verifications.get(pid) matches Some(l2) && l2@.len() == (
                        match old(state).verifications.get(pid) {
                            Some(l) => l@.len() + 1,
                            None => 1,
                        }) && l2@.last()@ == r.data->0.verification->0@ && (forall|j: int|
                            0 <= j < l2@.len() - 1 ==> l2@[j]@ == #[trigger] (old(
                                state,
                            ).verifications.get(pid)->0)@[j]@))
                        &&& forall|k2: Seq<u8>|
                            k2 != pid ==> final(state).verifications.get(k2) == old(
                                state,
                            ).verifications.get(k2)
                        &&& !final(state).rewards.spec_is_first(caller@, pid)
                        &&& forall|u2: Seq<u8>, p2: Seq<u8>|
                            !(u2 == caller@ && p2 == pid) ==> final(state).rewards.spec_is_first(
                                u2,
                                p2,
                            ) == old(state).rewards.spec_is_first(u2, p2)
                        &&& final(state).rewards.promotions == old(state).rewards.promotions
                    }
                }
            },
        },
{
    // 1. Resolve the serial number to its product and stored record.
    let (product_id, psn) = match find_serial_exec(&state.serial_numbers, &request.serial_no) {
        Some(pair) => pair,
        None => {
            return ApiResponse::error(ApiError::not_found("Serial number not valid or not found"));
        },
    };

    // 2. Record the attempt against the rate limit; a refusal carries
    //    the machine-usable reset time.
    match state.rate_limits.record_verification_attempt(caller, &product_id, now) {
        Ok(_) => {},
        Err(reset) => {
            let mut message = String::from_str("Rate limit exceeded. Try again after ");
            proof {
                lemma_dec_bytes_ascii(reset as nat);
            }
            let reset_text = ascii_to_string(dec_bytes(reset));
            message.append(reset_text.as_str());
            proof {
                assert(dec_chars_of(reset as nat) =~= crate::strutil::ascii_chars_of(
                    crate::ids::dec_bytes_of(reset as nat),
                ));
                assert(message@ =~= "Rate limit exceeded. Try again after "@ + dec_chars_of(
                    reset as nat,
                ));
            }
            return ApiResponse::error(ApiError::invalid_input(message.as_str()));
        },
    }

    // 3. The product behind the serial; its absence would mean storage
    //    corruption, which the store invariant rules out.
    let public_key = match state.products.get_ref(&product_id) {
        Some(p) => p.public_key.clone(),
        None => {
            return ApiResponse::error(
                ApiError::internal_error(
                    "Product data inconsistent: product not found for existing serial number",
                ),
            );
        },
    };

    // 4. Fast rejection on a stale claimed version: the signed payload
    //    is always built from the persisted version.
    let version_ok = request.print_version == psn.print_version;
    // 5. Client timestamp sanity, when one was sent.
    let ts_ok = match request.timestamp {
        Some(t) => {
            if now >= t {
                now - t <= 300
            } else {
                t - now <= 300
            }
        },
        None => true,
    };
    if !version_ok || !ts_ok {
        return ApiResponse::success(
            ProductVerificationEnhancedResponse {
                status: ProductVerificationStatus::Invalid,
                verification: None,
                rewards: None,
                expiration: None,
            },
        );
    }

    // 6. Check the code over the canonical message for the persisted
    //    version.
    let msg = build_product_msg(&product_id, &request.serial_no, psn.print_version);
    let check = check_code(public_key.as_str(), &msg, request.unique_code.as_str());
    proof {
        // The stored key always parses: it is the hex of a derived key.
        let org = state.organizations.get(
            state.products.get(product_id@)->0.org_id@,
        )->0;
        let sk = crate::hexstr::hex_decoded(org.private_key@);
        lemma_hex_of_is_hex_seq(crate::crypto::pubkey_of(sk));
        lemma_hex_round_trip(crate::crypto::pubkey_of(sk));
    }
    let valid = match check {
        CodeCheck::Valid => true,
        CodeCheck::BadKey => {
            return ApiResponse::error(ApiError::internal_error("Malformed public key"));
        },
        _ => false,
    };
    if !valid {
        return ApiResponse::success(
            ProductVerificationEnhancedResponse {
                status: ProductVerificationStatus::Invalid,
                verification: None,
                rewards: None,
                expiration: None,
            },
        );
    }

    // 7. Classify the scan and credit rewards.
    let first = state.rewards.is_first_verification_for_user(caller, &product_id);
    let status = if first {
        ProductVerificationStatus::FirstVerification
    } else {
        ProductVerificationStatus::MultipleVerification
    };
    let rewards_result = state.rewards.calculate_verification_rewards(
        caller,
        &product_id,
        &status,
        now,
    );

    // 8. Record the verification under the product.
    let verification_id = generate_unique_principal(&Id::anonymous(), now);
    let verification = ProductVerification {
        id: verification_id,
        product_id: product_id.clone(),
        serial_no: request.serial_no.clone(),
        print_version: psn.print_version,
        metadata: Vec::new(),
        created_at: now,
        created_by: caller.clone(),
        status,
        reward_claimed: false,
        reward_transaction_id: None,
    };
    let response_verification = verification.clone();
    proof {
        assert(verification@ =~= fresh_verification_v(
            verification@.id,
            product_id@,
            request.serial_no@,
            psn.print_version,
            status,
            caller@,
            now,
        ));
    }

    let mut list = match state.verifications.get_ref(&product_id) {
        Some(l) => clone_verifications(l),
        None => Vec::new(),
    };
    let ghost pre_list = match old(state).verifications.get(product_id@) {
        Some(l) => l,
        None => list,
    };
    let ghost clv = list@;
    proof {
        assert(clv.len() == pre_list@.len());
        assert forall|j2: int| 0 <= j2 < pre_list@.len() implies #[trigger] clv[j2]@
            == pre_list@[j2]@ by {
            assert(list.deep_view()[j2] == clv[j2]@);
            assert(pre_list.deep_view()[j2] == pre_list@[j2]@);
        }
    }
    list.push(verification);
    proof {
        assert(list@.last()@ == response_verification@);
        assert forall|j: int| 0 <= j < list@.len() - 1 implies list@[j]@ == #[trigger] pre_list@[j]@
            by {
            assert(list@[j] == clv[j]);
        }
    }
    state.verifications.insert(product_id.clone(), list);

    // 9. Note the success on the rate limiter; the counter stays.
    state.rate_limits.record_successful_verification(caller, &product_id, now);

    let expiration = now + 86400;
    ApiResponse::success(
        ProductVerificationEnhancedResponse {
            status,
            verification: Some(response_verification),
            rewards: Some(rewards_result),
            expiration: Some(expiration),
        },
    )
}

/// Reads the caller's remaining verification budget for a product
/// without mutating anything.
pub fn get_verification_rate_limit(state: &State, caller: &Id, product_id: &Id, now: u64) -> (r:
    ApiResponse<RateLimitInfo>)
    requires
        state.wf(),
        now <= u64::MAX - crate::WINDOW_DURATION_SECONDS,
    ensures
        r.error is None,
        r.data matches Some(info) && {
            let eff = effective_attempts(state.rate_limits.get(caller@, product_id@), now);
            let ws = crate::rate_limiter::effective_window_start(
                state.rate_limits.get(caller@, product_id@),
                now,
            );
            &&& info.remaining_attempts == if eff >= MAX_ATTEMPTS_PER_WINDOW {
                0u32
            } else {
                (MAX_ATTEMPTS_PER_WINDOW - eff) as u32
            }
            &&& info.reset_time == ws + crate::WINDOW_DURATION_SECONDS
            &&& info.current_window_start == ws
        },
{
    ApiResponse::success(state.rate_limits.check_rate_limit(caller, product_id, now))
}

/// What a verification record looks like once its reward is claimed.
pub open spec fn pv_claimed(v: ProductVerificationV, tx: Seq<char>) -> ProductVerificationV {
    ProductVerificationV { reward_claimed: true, reward_transaction_id: Some(tx), ..v }
}

/// The transaction identifier minted for a verification record.
pub open spec fn tx_id_of(verification_id: Seq<u8>) -> Seq<char> {
    "simulated-tx-"@ + hex_of(verification_id)
}

/// Redeems the first-verification reward of a recorded verification:
/// re-verifies the code against the persisted version, locates the
/// caller's matching record, and claims it exactly once. A second
/// attempt reports `success == false` and surfaces the transaction
/// already recorded; non-first verifications are ineligible.
pub fn redeem_product_reward(
    state: &mut State,
    caller: &Id,
    request: &RedeemRewardRequest,
    now: u64,
) -> (r: ApiResponse<RedeemRewardResponse>)
    requires
        old(state).wf(),
    ensures
        final(state).wf(),
        final(state).organizations == old(state).organizations,
        final(state).products == old(state).products,
        final(state).users == old(state).users,
        final(state).resellers == old(state).resellers,
        final(state).serial_numbers == old(state).serial_numbers,
        final(state).rate_limits == old(state).rate_limits,
        final(state).config_openai_api_key == old(state).config_openai_api_key,
        final(state).config_scraper_url == old(state).config_scraper_url,
        match find_serial(old(state).serial_numbers.entries@, request.serial_no@) {
            None => r.error matches Some(e) && e is InvalidInput && *final(state) == *old(state),
            Some(found) => {
                let pid = found.0@;
                let psn = found.1;
                let product = old(state).products.get(pid)->0;
                let msg = product_msg(pid, request.serial_no@, psn.print_version as nat);
                if !code_valid(product.public_key@, msg, request.unique_code@) {
                    r.error matches Some(e) && e is InvalidInput && *final(state) == *old(state)
                } else {
                    match old(state).verifications.get(pid) {
                        None => r.error matches Some(e) && e is NotFound && *final(state) == *old(
                            state,
                        ),
                        Some(list) => match pv_find_index(
                            list@,
                            caller@,
                            request.serial_no@,
                            psn.print_version,
                        ) {
                            None => r.error matches Some(e) && e is NotFound && *final(state)
                                == *old(state),
                            Some(idx) => {
                                let v = list@[idx];
                                if v.reward_claimed {
                                    &&& r.error is None
                                    &&& r.data matches Some(resp) && !resp.success
                                        && resp.transaction_id.deep_view()
                                        == v.reward_transaction_id.deep_view()
                                    &&& *final(state) == *old(state)
                                } else if !(v.status is FirstVerification) {
                                    &&& r.error is None
                                    &&& r.data matches Some(resp) && !resp.success
                                        && resp.transaction_id is None
                                    &&& *final(state) == *old(state)
                                } else {
                                    let tx = tx_id_of(v.id@);
                                    &&& r.error is None
                                    &&& r.data matches Some(resp) && resp.success
                                        && (resp.transaction_id matches Some(t) && t@ == tx)
                                    &&& (final(state).verifications.get(pid) matches Some(l2)
                                        && l2@.len() == list@.len() && l2@[idx]@ == pv_claimed(
                                        v@,
                                        tx,
                                    ) && (forall|j: int|
                                        0 <= j < list@.len() && j != idx ==> l2@[j]@
                                            == #[trigger] list@[j]@))
                                    &&& forall|k2: Seq<u8>|
                                        k2 != pid ==> final(state).verifications.get(k2) == old(
                                            state,
                                        ).verifications.get(k2)
                                    &&& !final(state).rewards.spec_is_first(caller@, pid)
                                    &&& final(state).rewards.promotions == old(
                                        state,
                                    ).rewards.promotions
                                }
                            },
                        },
                    }
                }
            },
        },
{
    // 1. Resolve the serial and re-verify the code for the persisted
    //    version, so a forged redemption cannot bypass verification.
    let (product_id, psn) = match find_serial_exec(&state.serial_numbers, &request.serial_no) {
        Some(pair) => pair,
        None => {
            return ApiResponse::error(
                ApiError::invalid_input("Serial number not found or invalid for redemption"),
            );
        },
    };
    let public_key = match state.products.get_ref(&product_id) {
        Some(p) => p.public_key.clone(),
        None => {
            return ApiResponse::error(
                ApiError::internal_error(
                    "Product data inconsistent: product not found for existing serial number",
                ),
            );
        },
    };
    let msg = build_product_msg(&product_id, &request.serial_no, psn.print_version);
    let check = check_code(public_key.as_str(), &msg, request.unique_code.as_str());
    proof {
        let org = state.organizations.get(
            state.products.get(product_id@)->0.org_id@,
        )->0;
        let sk = crate::hexstr::hex_decoded(org.private_key@);
        lemma_hex_of_is_hex_seq(crate::crypto::pubkey_of(sk));
        lemma_hex_round_trip(crate::crypto::pubkey_of(sk));
    }
    match check {
        CodeCheck::Valid => {},
        CodeCheck::BadKey => {
            return ApiResponse::error(
                ApiError::internal_error("Malformed public key during redemption"),
            );
        },
        CodeCheck::BadSignature => {
            return ApiResponse::error(
                ApiError::invalid_input("Malformed unique code during redemption"),
            );
        },
        CodeCheck::Mismatch => {
            return ApiResponse::error(
                ApiError::invalid_input("Unique code verification failed during redemption attempt"),
            );
        },
    }

    // 2. Locate the caller's verification record for this serial and
    //    version.
    let i = match state.verifications.index_of(&product_id) {
        Some(i) => i,
        None => {
            return ApiResponse::error(
                ApiError::not_found("No eligible verification record found for this redemption"),
            );
        },
    };
    let idx = match find_verification_index(
        &state.verifications.entries[i].1,
        caller,
        &request.serial_no,
        psn.print_version,
    ) {
        Some(idx) => idx,
        None => {
            return ApiResponse::error(
                ApiError::not_found("No eligible verification record found for this redemption"),
            );
        },
    };

    // 3. Idempotence: an already-claimed reward reports the recorded
    //    transaction, not an error.
    if state.verifications.entries[i].1[idx].reward_claimed {
        let existing = crate::model::clone_opt_string(
            &state.verifications.entries[i].1[idx].reward_transaction_id,
        );
        return ApiResponse::success(
            RedeemRewardResponse {
                success: false,
                transaction_id: existing,
                message: String::from_str(
                    "Reward for this verification has already been claimed.",
                ),
            },
        );
    }
    let is_first_status = match state.verifications.entries[i].1[idx].status {
        ProductVerificationStatus::FirstVerification => true,
        _ => false,
    };
    if !is_first_status {
        return ApiResponse::success(
            RedeemRewardResponse {
                success: false,
                transaction_id: None,
                message: String::from_str("Reward can only be claimed for the first verification."),
            },
        );
    }

    // 4. Recompute the reward; with first-verification base points the
    //    total is always positive.
    let status = ProductVerificationStatus::FirstVerification;
    let rewards = state.rewards.calculate_verification_rewards(caller, &product_id, &status, now);
    if rewards.points == 0 {
        return ApiResponse::error(ApiError::internal_error("No points for a first verification"));
    }

    // 5. Mint the transaction identifier and mark the record claimed.
    let ghost list0 = state.verifications.entries@[i as int].1;
    let v_id_hex = hex_encode(&state.verifications.entries[i].1[idx].id.bytes);
    let mut tx = String::from_str("simulated-tx-");
    tx.append(v_id_hex.as_str());
    let tx_for_record = tx.clone();

    let mut list = clone_verifications(&state.verifications.entries[i].1);
    let ghost clv = list@;
    proof {
        assert forall|j2: int| 0 <= j2 < list0@.len() implies #[trigger] clv[j2]@
            == list0@[j2]@ by {
            assert(list.deep_view()[j2] == clv[j2]@);
            assert(list0.deep_view()[j2] == list0@[j2]@);
        }
    }
    let found = &state.verifications.entries[i].1[idx];
    let claimed = ProductVerification {
        id: found.id.clone(),
        product_id: found.product_id.clone(),
        serial_no: found.serial_no.clone(),
        print_version: found.print_version,
        metadata: crate::model::clone_metadatas(&found.metadata),
        created_at: found.created_at,
        created_by: found.created_by.clone(),
        status: found.status,
        reward_claimed: true,
        reward_transaction_id: Some(tx_for_record),
    };
    proof {
        assert(claimed@ =~= pv_claimed(list0@[idx as int]@, tx_id_of(list0@[idx as int].id@)));
        assert(list@.len() == list0@.len());
    }
    list[idx] = claimed;
    proof {
        assert forall|j2: int| 0 <= j2 < list0@.len() && j2 != idx implies list@[j2]@
            == #[trigger] list0@[j2]@ by {
            assert(list@[j2] == clv[j2]);
        }
        crate::idmap::lemma_assoc_get_at(state.verifications.entries@, i as int);
    }
    state.verifications.insert(product_id.clone(), list);

    let mut message = String::from_str("Successfully redeemed ");
    proof {
        lemma_dec_bytes_ascii(rewards.points as nat);
    }
    let points_text = ascii_to_string(dec_bytes(rewards.points as u64));
    message.append(points_text.as_str());
    message.append(" points.");

    ApiResponse::success(
        RedeemRewardResponse { success: true, transaction_id: Some(tx), message },
    )
}

} // verus!

verus! {

use crate::api::ProductVerificationDetail;
use crate::api::ProductVerificationDetailV;
use crate::auth::authorize_for_organization;
use crate::auth::Permission;
use crate::idmap::IdMap;
use crate::model::clone_opt_string;
use crate::model::Product;
use crate::model::User;

/// The flattened detail a stored verification projects to, with the
/// product's name attached and the scanning user's email looked up.
pub open spec fn detail_v_of(
    v: ProductVerificationV,
    product_name: Seq<char>,
    users: IdMap<User>,
) -> ProductVerificationDetailV {
    ProductVerificationDetailV {
        user_email: match users.get(v.created_by) {
            Some(u) => u.email.deep_view(),
            None => None,
        },
        product_id: v.product_id,
        product_name: product_name,
        serial_no: v.serial_no,
        created_at: v.created_at,
        status: v.status,
    }
}

/// The details one product's verification list flattens to.
pub open spec fn details_of_list(
    list: Seq<ProductVerification>,
    product_name: Seq<char>,
    users: IdMap<User>,
) -> Seq<ProductVerificationDetailV> {
    Seq::new(list.len(), |i: int| detail_v_of(list[i]@, product_name, users))
}

/// Every verification of an organization's products, flattened in
/// product-store order.
pub open spec fn org_verification_details(
    prods: Seq<(Id, Product)>,
    verifications: IdMap<Vec<ProductVerification>>,
    users: IdMap<User>,
    org: Seq<u8>,
) -> Seq<ProductVerificationDetailV>
    decreases prods.len(),
{
    if prods.len() == 0 {
        Seq::empty()
    } else {
        (if prods[0].1.org_id@ == org {
            match verifications.get(prods[0].0@) {
                Some(l) => details_of_list(l@, prods[0].1.name@, users),
                None => Seq::empty(),
            }
        } else {
            Seq::empty()
        }) + org_verification_details(prods.drop_first(), verifications, users, org)
    }
}

/// Scanning one more product appends its details when it belongs to the
/// organization.
proof fn lemma_org_details_take_step(
    prods: Seq<(Id, Product)>,
    verifications: IdMap<Vec<ProductVerification>>,
    users: IdMap<User>,
    org: Seq<u8>,
    i: int,
)
    requires
        0 <= i < prods.len(),
    ensures
        org_verification_details(prods.take(i + 1), verifications, users, org)
            == org_verification_details(prods.take(i), verifications, users, org) + (
        if prods[i].1.org_id@ == org {
            match verifications.get(prods[i].0@) {
                Some(l) => details_of_list(l@, prods[i].1.name@, users),
                None => Seq::<ProductVerificationDetailV>::empty(),
            }
        } else {
            Seq::<ProductVerificationDetailV>::empty()
        }),
    decreases i,
{
    if i == 0 {
        assert(prods.take(1)[0] == prods[0]);
        assert(prods.take(1).drop_first() =~= Seq::<(Id, Product)>::empty());
        assert(prods.take(0) =~= Seq::<(Id, Product)>::empty());
        assert(org_verification_details(prods.take(1), verifications, users, org)
            =~= org_verification_details(prods.take(0), verifications, users, org) + (
        if prods[0].1.org_id@ == org {
            match verifications.get(prods[0].0@) {
                Some(l) => details_of_list(l@, prods[0].1.name@, users),
                None => Seq::<ProductVerificationDetailV>::empty(),
            }
        } else {
            Seq::<ProductVerificationDetailV>::empty()
        }));
    } else {
        assert(prods.take(i + 1)[0] == prods[0]);
        assert(prods.take(i)[0] == prods[0]);
        assert(prods.take(i + 1).drop_first() =~= prods.drop_first().take(i));
        assert(prods.take(i).drop_first() =~= prods.drop_first().take(i - 1));
        assert(prods.drop_first()[i - 1] == prods[i]);
        lemma_org_details_take_step(prods.drop_first(), verifications, users, org, i - 1);
        assert(org_verification_details(prods.take(i + 1), verifications, users, org)
            =~= org_verification_details(prods.take(i), verifications, users, org) + (
        if prods[i].1.org_id@ == org {
            match verifications.get(prods[i].0@) {
                Some(l) => details_of_list(l@, prods[i].1.name@, users),
                None => Seq::<ProductVerificationDetailV>::empty(),
            }
        } else {
            Seq::<ProductVerificationDetailV>::empty()
        }));
    }
}

/// Flattens one product's verification list into details.
fn details_for_list(
    list: &Vec<ProductVerification>,
    product_name: &String,
    users: &IdMap<User>,
) -> (r: Vec<ProductVerificationDetail>)
    requires
        users.wf(),
    ensures
        r.deep_view() == details_of_list(list@, product_name@, *users),
{
    let mut r: Vec<ProductVerificationDetail> = Vec::new();
    let mut i: usize = 0;
    while i < list.len()
        invariant
            users.wf(),
            i <= list@.len(),
            r@.len() == i,
            r.deep_view() =~~= details_of_list(list@, product_name@, *users).take(i as int),
        decreases list@.len() - i,
    {
        let v = &list[i];
        let user_email = match users.get_ref(&v.created_by) {
            Some(u) => clone_opt_string(&u.email),
            None => None,
        };
        let detail = ProductVerificationDetail {
            user_email,
            product_id: v.product_id.clone(),
            product_name: product_name.clone(),
            serial_no: v.serial_no.clone(),
            created_at: v.created_at,
            status: v.status,
        };
        proof {
            assert(detail@ =~= detail_v_of(list@[i as int]@, product_name@, *users));
        }
        let ghost prev = r.deep_view();
        r.push(detail);
        proof {
            assert forall|j: int| 0 <= j < i + 1 implies r.deep_view()[j] == details_of_list(
                list@,
                product_name@,
                *users,
            ).take(i + 1)[j] by {
                assert(r.deep_view()[j] == r@[j]@);
                if j < i {
                    assert(r.deep_view()[j] == prev[j]);
                }
            }
            assert(r.deep_view() =~~= details_of_list(list@, product_name@, *users).take(i + 1));
        }
        i = i + 1;
    }
    proof {
        assert(details_of_list(list@, product_name@, *users).take(list@.len() as int)
            =~= details_of_list(list@, product_name@, *users));
    }
    r
}

/// `push` then `to_multiset` agrees with `to_multiset` then `insert`.
proof fn to_multiset_build_for(s: Seq<ProductVerificationDetailV>, a: ProductVerificationDetailV)
    ensures
        s.push(a).to_multiset() == s.to_multiset().insert(a),
{
    vstd::seq_lib::to_multiset_build(s, a);
}

/// Whether a detail sequence is sorted newest-first.
pub open spec fn details_sorted_desc(s: Seq<ProductVerificationDetailV>) -> bool {
    forall|i: int, j: int| 0 <= i < j < s.len() ==> s[i].created_at >= s[j].created_at
}

/// Sorts details newest-first by selection: the result is a permutation
/// of the input (as multisets) in descending creation order.
fn sort_details_desc(items: Vec<ProductVerificationDetail>) -> (r: Vec<ProductVerificationDetail>)
    ensures
        r.deep_view().to_multiset() == items.deep_view().to_multiset(),
        details_sorted_desc(r.deep_view()),
        r@.len() == items@.len(),
{
    broadcast use vstd::seq_lib::group_to_multiset_ensures;

    let ghost orig = items.deep_view();
    let mut work = items;
    let mut out: Vec<ProductVerificationDetail> = Vec::new();
    proof {
        assert(out.deep_view() =~~= Seq::<ProductVerificationDetailV>::empty());
        assert(out.deep_view().to_multiset().add(work.deep_view().to_multiset())
            =~= orig.to_multiset());
    }
    while work.len() > 0
        invariant
            out.deep_view().to_multiset().add(work.deep_view().to_multiset())
                == orig.to_multiset(),
            details_sorted_desc(out.deep_view()),
            forall|i: int, j: int|
                0 <= i < out.deep_view().len() && 0 <= j < work.deep_view().len()
                    ==> out.deep_view()[i].created_at >= work.deep_view()[j].created_at,
            out@.len() + work@.len() == orig.len(),
        decreases work@.len(),
    {
        // Pick the newest remaining detail.
        let mut m: usize = 0;
        let mut k: usize = 1;
        while k < work.len()
            invariant
                work@.len() > 0,
                m < work@.len(),
                k <= work@.len(),
                forall|j: int| 0 <= j < k ==> work@[m as int].created_at >= work@[j].created_at,
            decreases work@.len() - k,
        {
            if work[k].created_at > work[m].created_at {
                m = k;
            }
            k = k + 1;
        }
        let ghost wdv = work.deep_view();
        let ghost odv = out.deep_view();
        let picked = work.remove(m);
        let ghost pv = picked@;
        proof {
            broadcast use vstd::multiset::group_multiset_axioms;

            vstd::seq_lib::to_multiset_remove(wdv, m as int);
            to_multiset_build_for(odv, pv);
            wdv.to_multiset_ensures();
            assert(wdv[m as int] == pv);
            assert(wdv.contains(wdv[m as int]));
            assert forall|j: int| 0 <= j < work.deep_view().len() implies work.deep_view()[j]
                == wdv.remove(m as int)[j] by {
                assert(work.deep_view()[j] == work@[j]@);
            }
            assert(work.deep_view() =~~= wdv.remove(m as int));
            assert(wdv.remove(m as int).to_multiset() =~= wdv.to_multiset().remove(pv));
        }
        let ghost oprev = out@;
        out.push(picked);
        proof {
            assert forall|j: int| 0 <= j < out.deep_view().len() implies out.deep_view()[j] == odv.push(
                pv,
            )[j] by {
                assert(out.deep_view()[j] == out@[j]@);
                if j < oprev.len() {
                    assert(out@[j] == oprev[j]);
                }
            }
            assert(out.deep_view() =~~= odv.push(pv));
            assert(odv.push(pv).to_multiset() =~= odv.to_multiset().insert(pv));
            // The multiset balance: moving one element across.
            assert(out.deep_view().to_multiset().add(work.deep_view().to_multiset())
                =~= orig.to_multiset()) by {
                assert(wdv.to_multiset().count(pv) > 0);
            }
            // Order: the pick is no newer than anything emitted, and no
            // older than anything left.
            assert forall|i: int, j: int|
                0 <= i < out.deep_view().len() && 0 <= j < work.deep_view().len() implies out.deep_view()[i].created_at
                >= work.deep_view()[j].created_at by {
                let wj = work.deep_view()[j];
                assert(wdv.remove(m as int)[j] == wj);
                let j0 = if j < m {
                    j
                } else {
                    j + 1
                };
                assert(wdv[j0] == wj);
                assert(wdv[m as int].created_at >= wj.created_at);
                if i < odv.len() {
                    assert(out.deep_view()[i] == odv[i]);
                } else {
                    assert(out.deep_view()[i] == pv);
                }
            }
            assert(details_sorted_desc(out.deep_view()));
        }
    }
    proof {
        assert(work.deep_view() =~~= Seq::<ProductVerificationDetailV>::empty());
        assert(out.deep_view().to_multiset() =~= orig.to_multiset());
    }
    out
}

/// Lists every verification of an organization's products, flattened
/// with the product name and scanning user's email, newest first. An
/// unauthorized caller gets the empty list, not an error.
pub fn list_product_verifications_by_org_id(state: &State, caller: &Id, org_id: &Id) -> (r: Vec<
    ProductVerificationDetail,
>)
    requires
        state.wf(),
    ensures
        if crate::auth::spec_authorized_for_org(
            state.users,
            state.organizations,
            caller@,
            org_id@,
            Permission::ReadProduct,
        ) {
            &&& r.deep_view().to_multiset() == org_verification_details(
                state.products.entries@,
                state.verifications,
                state.users,
                org_id@,
            ).to_multiset()
            &&& details_sorted_desc(r.deep_view())
        } else {
            r@.len() == 0
        },
{
    if authorize_for_organization(
        &state.users,
        &state.organizations,
        caller,
        org_id,
        Permission::ReadProduct,
    ).is_err() {
        return Vec::new();
    }
    let mut collected: Vec<ProductVerificationDetail> = Vec::new();
    let mut i: usize = 0;
    proof {
        assert(state.products.entries@.take(0) =~= Seq::<(Id, Product)>::empty());
        assert(collected.deep_view() =~~= org_verification_details(
            state.products.entries@.take(0),
            state.verifications,
            state.users,
            org_id@,
        ));
    }
    while i < state.products.entries.len()
        invariant
            state.wf(),
            i <= state.products.entries@.len(),
            collected.deep_view() =~~= org_verification_details(
                state.products.entries@.take(i as int),
                state.verifications,
                state.users,
                org_id@,
            ),
        decreases state.products.entries@.len() - i,
    {
        proof {
            lemma_org_details_take_step(
                state.products.entries@,
                state.verifications,
                state.users,
                org_id@,
                i as int,
            );
        }
        if state.products.entries[i].1.org_id == *org_id {
            proof {
                crate::idmap::lemma_assoc_get_at(state.products.entries@, i as int);
            }
            match state.verifications.get_ref(&state.products.entries[i].0) {
                Some(list) => {
                    let details = details_for_list(
                        list,
                        &state.products.entries[i].1.name,
                        &state.users,
                    );
                    let ghost prevv = collected@;
                    let ghost prev = collected.deep_view();
                    let ghost ddv = details.deep_view();
                    let mut details = details;
                    let ghost dv = details@;
                    collected.append(&mut details);
                    proof {
                        assert forall|j: int| 0 <= j < collected@.len()
                            implies collected.deep_view()[j] == (prev + ddv)[j] by {
                            assert(collected.deep_view()[j] == collected@[j]@);
                            if j < prevv.len() {
                                assert(collected@[j] == prevv[j]);
                                assert(prevv[j]@ == prev[j]);
                            } else {
                                assert(collected@[j] == dv[j - prevv.len()]);
                                assert(dv[j - prevv.len()]@ == ddv[j - prevv.len()]);
                            }
                        }
                        assert(collected.deep_view() =~~= prev + ddv);
                        assert(collected.deep_view() =~~= org_verification_details(
                            state.products.entries@.take(i + 1),
                            state.verifications,
                            state.users,
                            org_id@,
                        ));
                    }
                },
                None => {
                    proof {
                        assert(collected.deep_view() =~~= org_verification_details(
                            state.products.entries@.take(i + 1),
                            state.verifications,
                            state.users,
                            org_id@,
                        ));
                    }
                },
            }
        } else {
            proof {
                assert(collected.deep_view() =~~= org_verification_details(
                    state.products.entries@.take(i + 1),
                    state.verifications,
                    state.users,
                    org_id@,
                ));
            }
        }
        i = i + 1;
    }
    proof {
        assert(state.products.entries@.take(state.products.entries@.len() as int)
            =~= state.products.entries@);
    }
    sort_details_desc(collected)
}

} // verus!
