//! Products and their serial numbers: product creation binds the
//! product's verification key to its organization's signing key; printing
//! a serial number bumps its version by exactly one and signs the
//! canonical message for the new version, yielding the single-use code.

use vstd::prelude::*;

verus! {

use crate::auth::authorize_for_organization;
use crate::auth::Permission;
use crate::auth::spec_authorized_for_org;
use crate::crypto::pubkey_of;
use crate::crypto::secret_key_ok;
use crate::crypto::sha256_of;
use crate::crypto::sig_of;
use crate::errors::ApiError;
use crate::hexstr::hex_decode;
use crate::hexstr::hex_decoded;
use crate::hexstr::hex_encode;
use crate::hexstr::hex_of;
use crate::hexstr::is_hex_seq;
use crate::idmap::IdMap;
use crate::ids::Id;
use crate::model::clone_metadatas;
use crate::model::clone_serials;
use crate::model::Metadata;
use crate::model::Product;
use crate::model::ProductInput;
use crate::model::ProductResult;
use crate::model::ProductSerialNumber;
use crate::model::ProductSerialNumberResult;
use crate::model::ProductSerialNumberV;
use crate::model::ProductUniqueCodeResult;
use crate::model::ProductUniqueCodeResultRecord;
use crate::model::ProductV;
use crate::protocol::build_product_msg;
use crate::protocol::code_valid;
use crate::protocol::product_msg;
use crate::protocol::sign_code;
use crate::state::find_serial_in_list;
use crate::state::sn_find;
use crate::state::lemma_sn_find_hit;
use crate::state::State;
use crate::utils::generate_unique_principal;
use crate::utils::unique_id_of;

/// A print version after one print run: up by one, saturating.
pub open spec fn sat_bump(v: u8) -> u8 {
    if v < 255 {
        (v + 1) as u8
    } else {
        255
    }
}

/// What a serial record looks like after a print run at `now`: the
/// version bumped, the update stamp refreshed, everything else kept.
pub open spec fn psn_bumped(p: ProductSerialNumberV, now: u64, caller: Seq<u8>) -> ProductSerialNumberV {
    ProductSerialNumberV {
        print_version: sat_bump(p.print_version),
        updated_at: now,
        updated_by: caller,
        ..p
    }
}

/// Bumps the found serial record, signs the canonical message for the
/// new version with the organization's key, stores the updated list, and
/// returns the hex signature as the unique code. The returned code is
/// valid for the new version under the key's public counterpart.
fn generate_and_store_unique_code_for_serial(
    serials: &mut IdMap<Vec<ProductSerialNumber>>,
    product_id: &Id,
    serial_no: &Id,
    organization_private_key_hex: &str,
    caller: &Id,
    now: u64,
) -> (r: Result<ProductUniqueCodeResultRecord, ApiError>)
    requires
        old(serials).wf(),
        crate::state::serials_distinct(*old(serials)),
    ensures
        final(serials).wf(),
        crate::state::serials_distinct(*final(serials)),
        match old(serials).get(product_id@) {
            None => r matches Err(e) && e is NotFound && *final(serials) == *old(serials),
            Some(list) => match sn_find(list@, serial_no@) {
                None => r matches Err(e) && e is NotFound && *final(serials) == *old(serials),
                Some(psn) => {
                    if !(is_hex_seq(organization_private_key_hex@) && secret_key_ok(
                        hex_decoded(organization_private_key_hex@),
                    )) {
                        r matches Err(e) && e is InternalError && *final(serials) == *old(serials)
                    } else {
                        let newv = sat_bump(psn.print_version);
                        let sk = hex_decoded(organization_private_key_hex@);
                        let msg = product_msg(product_id@, serial_no@, newv as nat);
                        &&& r matches Ok(rec)
                        &&& r->Ok_0.unique_code@ == hex_of(sig_of(sk, sha256_of(msg)))
                        &&& code_valid(hex_of(pubkey_of(sk)), msg, r->Ok_0.unique_code@)
                        &&& r->Ok_0.print_version == newv
                        &&& r->Ok_0.product_id@ == product_id@
                        &&& r->Ok_0.serial_no@ == serial_no@
                        &&& r->Ok_0.created_at == psn.created_at
                        &&& final(serials).get(product_id@) matches Some(l2) && l2@.len()
                            == list@.len() && (sn_find(l2@, serial_no@) matches Some(p2) && p2@
                            == psn_bumped(psn@, now, caller@)) && (forall|j: int|
                            0 <= j < list@.len() && list@[j].serial_no@ != serial_no@
                                ==> l2@[j]@ == #[trigger] list@[j]@)
                        &&& forall|k2: Seq<u8>|
                            k2 != product_id@ ==> final(serials).get(k2) == old(serials).get(k2)
                    }
                },
            },
        },
{
    let i = match serials.index_of(product_id) {
        Some(i) => i,
        None => {
            return Err(ApiError::not_found("Product has no serial numbers recorded for printing"));
        },
    };
    let j = match find_serial_in_list(&serials.entries[i].1, serial_no) {
        Some(j) => j,
        None => {
            return Err(ApiError::not_found("Serial number not found for printing"));
        },
    };
    let sk_bytes = match hex_decode(organization_private_key_hex) {
        Some(b) => b,
        None => {
            return Err(
                ApiError::internal_error(
                    "Malformed secret key for organization during code generation",
                ),
            );
        },
    };
    if crate::crypto::derive_pubkey(&sk_bytes).is_none() {
        return Err(
            ApiError::internal_error("Invalid secret key for organization during code generation"),
        );
    }

    let ghost list0 = serials.entries@[i as int].1;
    let mut list = clone_serials(&serials.entries[i].1);
    let ghost clv = list@;
    proof {
        assert forall|j2: int| 0 <= j2 < list0@.len() implies #[trigger] clv[j2]@
            == list0@[j2]@ by {
            assert(list.deep_view()[j2] == clv[j2]@);
            assert(list0.deep_view()[j2] == list0@[j2]@);
        }
    }
    let found = &serials.entries[i].1[j];
    let new_version = if found.print_version < 255 {
        found.print_version + 1
    } else {
        255
    };
    let bumped = ProductSerialNumber {
        product_id: found.product_id.clone(),
        serial_no: found.serial_no.clone(),
        print_version: new_version,
        metadata: clone_metadatas(&found.metadata),
        created_at: found.created_at,
        created_by: found.created_by.clone(),
        updated_at: now,
        updated_by: caller.clone(),
    };
    let created_at = found.created_at;
    proof {
        assert(bumped@ =~= psn_bumped(list0@[j as int]@, now, caller@));
        assert(list@.len() == list0@.len());
    }
    list[j] = bumped;

    let msg = build_product_msg(product_id, serial_no, new_version);
    let code = match sign_code(organization_private_key_hex, &msg) {
        Ok(c) => c,
        Err(_) => {
            return Err(
                ApiError::internal_error(
                    "Invalid secret key for organization during code generation",
                ),
            );
        },
    };

    proof {
        // The updated list still finds the serial, now bumped.
        assert(list@[j as int] == bumped);
        assert forall|j2: int| 0 <= j2 < j implies list@[j2].serial_no@ != serial_no@ by {
            assert(list@[j2] == clv[j2]);
            assert(clv[j2]@ == list0@[j2]@);
        }
        lemma_sn_find_hit(list@, j as int, serial_no@);
        assert forall|j2: int|
            0 <= j2 < list0@.len() && list0@[j2].serial_no@ != serial_no@ implies list@[j2]@
            == #[trigger] list0@[j2]@ by {
            assert(j2 != j);
            assert(list@[j2] == clv[j2]);
            assert(clv[j2]@ == list0@[j2]@);
        }
        crate::idmap::lemma_assoc_get_at(serials.entries@, i as int);
        // Distinct serial numbers are preserved: the bumped record keeps
        // its serial number and every other record is untouched.
        assert(crate::state::sn_distinct(list0@));
        assert forall|a: int, b: int| 0 <= a < b < list@.len() implies list@[a].serial_no@
            != list@[b].serial_no@ by {
            if a != j {
                assert(list@[a] == clv[a]);
                assert(clv[a]@ == list0@[a]@);
            } else {
                assert(list@[a].serial_no@ == list0@[j as int].serial_no@);
            }
            if b != j {
                assert(list@[b] == clv[b]);
                assert(clv[b]@ == list0@[b]@);
            } else {
                assert(list@[b].serial_no@ == list0@[j as int].serial_no@);
            }
            assert(list0@[a].serial_no@ != list0@[b].serial_no@);
        }
    }
    let pid_owned = product_id.clone();
    serials.insert(pid_owned, list);
    proof {
        assert forall|k: Seq<u8>| #[trigger] serials.get(k) is Some implies crate::state::sn_distinct(
            serials.get(k)->0@,
        ) by {
            if k != product_id@ {
                assert(serials.get(k) == old(serials).get(k));
            }
        }
    }

    Ok(
        ProductUniqueCodeResultRecord {
            unique_code: code,
            print_version: new_version,
            product_id: product_id.clone(),
            serial_no: serial_no.clone(),
            created_at,
        },
    )
}

/// Prints a serial number: resolves the product and its organization,
/// bumps the stored version by one and returns the code for the new
/// version — valid under the product's own verification key, and only
/// while the stored version stays at that value.
pub fn print_product_serial_number(
    state: &mut State,
    caller: &Id,
    product_id: &Id,
    serial_no: &Id,
    now: u64,
) -> (r: ProductUniqueCodeResult)
    requires
        old(state).wf(),
    ensures
        final(state).wf(),
        final(state).products == old(state).products,
        final(state).organizations == old(state).organizations,
        final(state).verifications == old(state).verifications,
        final(state).users == old(state).users,
        final(state).resellers == old(state).resellers,
        final(state).rewards == old(state).rewards,
        final(state).rate_limits == old(state).rate_limits,
        final(state).config_openai_api_key == old(state).config_openai_api_key,
        final(state).config_scraper_url == old(state).config_scraper_url,
        match old(state).products.get(product_id@) {
            None => r matches ProductUniqueCodeResult::Error(e) && e is NotFound && final(state).serial_numbers == old(state).serial_numbers,
            Some(product) => {
                let sk = hex_decoded(
                    old(state).organizations.get(product.org_id@)->0.private_key@,
                );
                match old(state).serial_numbers.get(product_id@) {
                    None => r matches ProductUniqueCodeResult::Error(e) && e is NotFound && final(state).serial_numbers == old(state).serial_numbers,
                    Some(list) => match sn_find(list@, serial_no@) {
                        None => r matches ProductUniqueCodeResult::Error(e) && e is NotFound
                            && final(state).serial_numbers == old(state).serial_numbers,
                        Some(psn) => {
                            let newv = sat_bump(psn.print_version);
                            let msg = product_msg(product_id@, serial_no@, newv as nat);
                            &&& r matches ProductUniqueCodeResult::Record(rec)
                            &&& rec.unique_code@ == hex_of(sig_of(sk, sha256_of(msg)))
                            &&& code_valid(product.public_key@, msg, rec.unique_code@)
                            &&& rec.print_version == newv
                            &&& rec.product_id@ == product_id@
                            &&& rec.serial_no@ == serial_no@
                            &&& (final(state).serial_numbers.get(product_id@) matches Some(l2)
                                && l2@.len() == list@.len() && (sn_find(l2@, serial_no@)
                                matches Some(p2) && p2@ == psn_bumped(psn@, now, caller@)) && (
                            forall|j: int|
                                0 <= j < list@.len() && list@[j].serial_no@ != serial_no@
                                    ==> l2@[j]@ == #[trigger] list@[j]@))
                            &&& forall|k2: Seq<u8>|
                                k2 != product_id@ ==> final(state).serial_numbers.get(k2) == old(state).serial_numbers.get(k2)
                        },
                    },
                }
            },
        },
{
    let product_key = match state.products.get_ref(product_id) {
        Some(p) => p.public_key.clone(),
        None => {
            return ProductUniqueCodeResult::Error(
                ApiError::not_found("Product not found for printing serial"),
            );
        },
    };
    let org_id = match state.products.get_ref(product_id) {
        Some(p) => p.org_id.clone(),
        None => {
            return ProductUniqueCodeResult::Error(
                ApiError::not_found("Product not found for printing serial"),
            );
        },
    };
    let private_key = match state.organizations.get_ref(&org_id) {
        Some(o) => o.private_key.clone(),
        None => {
            return ProductUniqueCodeResult::Error(
                ApiError::not_found("Organization not found for product"),
            );
        },
    };
    let _ = product_key;
    match generate_and_store_unique_code_for_serial(
        &mut state.serial_numbers,
        product_id,
        serial_no,
        private_key.as_str(),
        caller,
        now,
    ) {
        Ok(record) => ProductUniqueCodeResult::Record(record),
        Err(err) => ProductUniqueCodeResult::Error(err),
    }
}

/// Mints a serial number under a product, starting at version zero; the
/// caller needs product write access within the owning organization. In
/// the vanishingly unlikely event of an identifier collision inside the
/// product's list, the fresh record is still appended.
pub fn create_product_serial_number(state: &mut State, caller: &Id, product_id: &Id, now: u64) -> (r:
    ProductSerialNumberResult)
    requires
        old(state).wf(),
    ensures
        final(state).wf(),
        final(state).products == old(state).products,
        final(state).organizations == old(state).organizations,
        final(state).users == old(state).users,
        match old(state).products.get(product_id@) {
            None => r matches ProductSerialNumberResult::Error(e) && e is NotFound && *final(state)
                == *old(state),
            Some(product) => {
                if !spec_authorized_for_org(
                    old(state).users,
                    old(state).organizations,
                    caller@,
                    product.org_id@,
                    Permission::WriteProduct,
                ) {
                    r matches ProductSerialNumberResult::Error(e) && (e is NotFound
                        || e is Unauthorized) && *final(state) == *old(state)
                } else if (match old(state).serial_numbers.get(product_id@) {
                    Some(l) => sn_find(l@, unique_id_of(seq![4u8], now)) is Some,
                    None => false,
                }) {
                    // A same-instant mint that collides with an existing
                    // serial is refused, keeping serial numbers unique
                    // within the product.
                    r matches ProductSerialNumberResult::Error(e) && e is InternalError
                        && *final(state) == *old(state)
                } else {
                    let sn = unique_id_of(seq![4u8], now);
                    let expected = ProductSerialNumberV {
                        product_id: product_id@,
                        serial_no: sn,
                        print_version: 0,
                        metadata: Seq::empty(),
                        created_at: now,
                        created_by: caller@,
                        updated_at: now,
                        updated_by: caller@,
                    };
                    &&& r matches ProductSerialNumberResult::Record(rec) && rec@ == expected
                    &&& final(state).serial_numbers.get(product_id@) matches Some(l2) && l2@.len()
                        > 0 && l2@.last()@ == expected && l2@.len() == (match old(state).serial_numbers.get(product_id@) {
                        Some(l) => l@.len() + 1,
                        None => 1,
                    }) && (forall|j: int|
                        0 <= j < l2@.len() - 1 ==> l2@[j]@ == #[trigger] (old(state).serial_numbers.get(product_id@)->0)@[j]@)
                    &&& forall|k2: Seq<u8>|
                        k2 != product_id@ ==> final(state).serial_numbers.get(k2) == old(state).serial_numbers.get(k2)
                }
            },
        },
{
    let org_id = match state.products.get_ref(product_id) {
        Some(p) => p.org_id.clone(),
        None => {
            return ProductSerialNumberResult::Error(ApiError::not_found("Product not found"));
        },
    };
    if let Err(e) = authorize_for_organization(
        &state.users,
        &state.organizations,
        caller,
        &org_id,
        Permission::WriteProduct,
    ) {
        return ProductSerialNumberResult::Error(e);
    }

    let serial_no = generate_unique_principal(&Id::anonymous(), now);
    let collision = match state.serial_numbers.get_ref(product_id) {
        Some(l) => find_serial_in_list(l, &serial_no).is_some(),
        None => false,
    };
    if collision {
        return ProductSerialNumberResult::Error(ApiError::internal_error("Identifier collision"));
    }
    let record = ProductSerialNumber {
        product_id: product_id.clone(),
        serial_no,
        print_version: 0,
        metadata: Vec::new(),
        created_at: now,
        created_by: caller.clone(),
        updated_at: now,
        updated_by: caller.clone(),
    };
    proof {
        assert(record@ =~= ProductSerialNumberV {
            product_id: product_id@,
            serial_no: unique_id_of(seq![4u8], now),
            print_version: 0,
            metadata: Seq::empty(),
            created_at: now,
            created_by: caller@,
            updated_at: now,
            updated_by: caller@,
        });
    }
    let result_record = record.clone();

    let mut list = match state.serial_numbers.get_ref(product_id) {
        Some(l) => clone_serials(l),
        None => Vec::new(),
    };
    let ghost pre_list = match old(state).serial_numbers.get(product_id@) {
        Some(l) => l,
        None => list,
    };
    let ghost clv = list@;
    proof {
        assert(clv.len() == pre_list@.len());
        assert forall|j2: int| 0 <= j2 < pre_list@.len() implies #[trigger] clv[j2]@
            == pre_list@[j2]@ by {
            assert(list.deep_view()[j2] == clv[j2]@);
            assert(pre_list.deep_view()[j2] == pre_list@[j2]@);
        }
    }
    list.push(record);
    proof {
        assert(list@.last()@ == result_record@);
        assert forall|j: int| 0 <= j < list@.len() - 1 implies list@[j]@ == #[trigger] pre_list@[j]@
            by {
            assert(list@[j] == clv[j]);
        }
        // The fresh serial differs from every stored one, so the list
        // stays pairwise distinct.
        if old(state).serial_numbers.get(product_id@) is Some {
            crate::state::lemma_sn_find_none_forall(pre_list@, result_record@.serial_no);
            assert(crate::state::sn_distinct(pre_list@));
        }
        assert forall|a: int, b: int| 0 <= a < b < list@.len() implies list@[a].serial_no@
            != list@[b].serial_no@ by {
            assert(list@[a] == clv[a]);
            assert(clv[a]@ == pre_list@[a]@);
            if b < list@.len() - 1 {
                assert(list@[b] == clv[b]);
                assert(clv[b]@ == pre_list@[b]@);
            } else {
                assert(list@[b]@ == result_record@);
            }
        }
    }
    state.serial_numbers.insert(product_id.clone(), list);
    proof {
        assert forall|k: Seq<u8>| #[trigger] state.serial_numbers.get(k) is Some
            implies crate::state::sn_distinct(state.serial_numbers.get(k)->0@) by {
            if k != product_id@ {
                assert(state.serial_numbers.get(k) == old(state).serial_numbers.get(k));
            }
        }
    }
    ProductSerialNumberResult::Record(result_record)
}

/// Refreshes a serial record's update stamp; the record is otherwise
/// kept. `Error` (not found) when the product has no list or the list
/// has no such serial.
pub fn update_product_serial_number(
    state: &mut State,
    caller: &Id,
    product_id: &Id,
    serial_no: &Id,
    now: u64,
) -> (r: ProductSerialNumberResult)
    requires
        old(state).wf(),
    ensures
        final(state).wf(),
        final(state).products == old(state).products,
        final(state).organizations == old(state).organizations,
        final(state).users == old(state).users,
        match old(state).serial_numbers.get(product_id@) {
            None => r matches ProductSerialNumberResult::Error(e) && e is NotFound && *final(state)
                == *old(state),
            Some(list) => match sn_find(list@, serial_no@) {
                None => r matches ProductSerialNumberResult::Error(e) && e is NotFound && *final(state) == *old(state),
                Some(psn) => {
                    let expected = ProductSerialNumberV {
                        updated_at: now,
                        updated_by: caller@,
                        ..psn@
                    };
                    &&& r matches ProductSerialNumberResult::Record(rec) && rec@ == expected
                    &&& final(state).serial_numbers.get(product_id@) matches Some(l2) && l2@.len()
                        == list@.len() && (sn_find(l2@, serial_no@) matches Some(p2) && p2@
                        == expected) && (forall|j: int|
                        0 <= j < list@.len() && list@[j].serial_no@ != serial_no@ ==> l2@[j]@
                            == #[trigger] list@[j]@)
                    &&& forall|k2: Seq<u8>|
                        k2 != product_id@ ==> final(state).serial_numbers.get(k2) == old(state).serial_numbers.get(k2)
                },
            },
        },
{
    let i = match state.serial_numbers.index_of(product_id) {
        Some(i) => i,
        None => {
            return ProductSerialNumberResult::Error(
                ApiError::not_found("Product has no registered serial numbers"),
            );
        },
    };
    let j = match find_serial_in_list(&state.serial_numbers.entries[i].1, serial_no) {
        Some(j) => j,
        None => {
            return ProductSerialNumberResult::Error(ApiError::not_found("Serial number not found"));
        },
    };
    let ghost list0 = state.serial_numbers.entries@[i as int].1;
    let mut list = clone_serials(&state.serial_numbers.entries[i].1);
    let ghost clv = list@;
    proof {
        assert forall|j2: int| 0 <= j2 < list0@.len() implies #[trigger] clv[j2]@
            == list0@[j2]@ by {
            assert(list.deep_view()[j2] == clv[j2]@);
            assert(list0.deep_view()[j2] == list0@[j2]@);
        }
    }
    let found = &state.serial_numbers.entries[i].1[j];
    let updated = ProductSerialNumber {
        product_id: found.product_id.clone(),
        serial_no: found.serial_no.clone(),
        print_version: found.print_version,
        metadata: clone_metadatas(&found.metadata),
        created_at: found.created_at,
        created_by: found.created_by.clone(),
        updated_at: now,
        updated_by: caller.clone(),
    };
    let result_record = updated.clone();
    proof {
        assert(updated@ =~= ProductSerialNumberV {
            updated_at: now,
            updated_by: caller@,
            ..list0@[j as int]@
        });
        assert(list@.len() == list0@.len());
    }
    list[j] = updated;
    proof {
        assert forall|j2: int| 0 <= j2 < j implies list@[j2].serial_no@ != serial_no@ by {
            assert(list@[j2] == clv[j2]);
            assert(clv[j2]@ == list0@[j2]@);
        }
        lemma_sn_find_hit(list@, j as int, serial_no@);
        assert forall|j2: int|
            0 <= j2 < list0@.len() && list0@[j2].serial_no@ != serial_no@ implies list@[j2]@
            == #[trigger] list0@[j2]@ by {
            assert(j2 != j);
            assert(list@[j2] == clv[j2]);
            assert(clv[j2]@ == list0@[j2]@);
        }
        crate::idmap::lemma_assoc_get_at(state.serial_numbers.entries@, i as int);
        // Distinct serial numbers are preserved: the refreshed record
        // keeps its serial number and every other record is untouched.
        assert(crate::state::sn_distinct(list0@));
        assert forall|a: int, b: int| 0 <= a < b < list@.len() implies list@[a].serial_no@
            != list@[b].serial_no@ by {
            if a != j {
                assert(list@[a] == clv[a]);
                assert(clv[a]@ == list0@[a]@);
            } else {
                assert(list@[a].serial_no@ == list0@[j as int].serial_no@);
            }
            if b != j {
                assert(list@[b] == clv[b]);
                assert(clv[b]@ == list0@[b]@);
            } else {
                assert(list@[b].serial_no@ == list0@[j as int].serial_no@);
            }
            assert(list0@[a].serial_no@ != list0@[b].serial_no@);
        }
    }
    state.serial_numbers.insert(product_id.clone(), list);
    proof {
        assert forall|k: Seq<u8>| #[trigger] state.serial_numbers.get(k) is Some
            implies crate::state::sn_distinct(state.serial_numbers.get(k)->0@) by {
            if k != product_id@ {
                assert(state.serial_numbers.get(k) == old(state).serial_numbers.get(k));
            }
        }
    }
    ProductSerialNumberResult::Record(result_record)
}

} // verus!

verus! {

use crate::ids::dec_bytes;
use crate::ids::dec_bytes_of;
use crate::ids::dec_chars_of;
use crate::ids::lemma_dec_bytes_ascii;
use crate::model::MetadataV;
use crate::strutil::ascii_to_string;
use crate::users::find_meta_value;

/// Creates a product under an organization: derives the product's fixed
/// verification key from the organization's signing key, mints an initial
/// serial number, prints it once (version one) and records the first code
/// in the product's metadata. The caller needs product write access.
pub fn create_product(state: &mut State, caller: &Id, input: ProductInput, now: u64) -> (r:
    ProductResult)
    requires
        old(state).wf(),
    ensures
        final(state).wf(),
        final(state).organizations == old(state).organizations,
        final(state).users == old(state).users,
        final(state).verifications == old(state).verifications,
        if !spec_authorized_for_org(
            old(state).users,
            old(state).organizations,
            caller@,
            input.org_id@,
            Permission::WriteProduct,
        ) {
            r matches ProductResult::Error(e) && (e is NotFound || e is Unauthorized) && *final(state) == *old(state)
        } else {
            let pid = unique_id_of(seq![4u8], now);
            let org = old(state).organizations.get(input.org_id@)->0;
            let sk = hex_decoded(org.private_key@);
            if old(state).products.get(pid) is Some {
                r matches ProductResult::Error(e) && e is InternalError && *final(state) == *old(state)
            } else {
                let msg = product_msg(pid, pid, 1);
                let code = hex_of(sig_of(sk, sha256_of(msg)));
                &&& r matches ProductResult::Product(p)
                &&& p@.id == pid
                &&& p@.org_id == input.org_id@
                &&& p@.name == input.name@
                &&& p@.category == input.category@
                &&& p@.description == input.description@
                &&& p@.public_key == hex_of(pubkey_of(sk))
                &&& p@.metadata == input.metadata.deep_view() + seq![
                    MetadataV { key: "initial_unique_code"@, value: code },
                    MetadataV { key: "initial_serial_no"@, value: hex_of(pid) },
                    MetadataV { key: "initial_print_version"@, value: dec_chars_of(1) },
                ]
                &&& p@.created_at == now && p@.created_by == caller@ && p@.updated_at == now
                    && p@.updated_by == caller@
                &&& final(state).products.get(pid) matches Some(p2) && p2@ == p@
                &&& code_valid(hex_of(pubkey_of(sk)), msg, code)
                &&& final(state).serial_numbers.get(pid) matches Some(l) && l@.len() == 1
                    && l@[0]@.serial_no == pid && l@[0]@.print_version == 1
                &&& forall|k2: Seq<u8>|
                    k2 != pid ==> final(state).products.get(k2) == old(state).products.get(k2)
                &&& forall|k2: Seq<u8>|
                    k2 != pid ==> final(state).serial_numbers.get(k2) == old(state).serial_numbers.get(k2)
            }
        },
{
    let organization = match authorize_for_organization(
        &state.users,
        &state.organizations,
        caller,
        &input.org_id,
        Permission::WriteProduct,
    ) {
        Ok(o) => o,
        Err(e) => {
            return ProductResult::Error(e);
        },
    };
    let sk_bytes = match hex_decode(organization.private_key.as_str()) {
        Some(b) => b,
        None => {
            return ProductResult::Error(
                ApiError::invalid_input("Invalid private key format for organization"),
            );
        },
    };
    let pubkey = match crate::crypto::derive_pubkey(&sk_bytes) {
        Some(p) => p,
        None => {
            return ProductResult::Error(
                ApiError::internal_error("Failed to process private key for organization"),
            );
        },
    };
    let public_key_hex = hex_encode(&pubkey);

    let new_product_id = generate_unique_principal(&Id::anonymous(), now);
    if state.products.get_ref(&new_product_id).is_some() {
        return ProductResult::Error(ApiError::internal_error("Identifier collision"));
    }
    let serial_no = generate_unique_principal(&Id::anonymous(), now);

    let initial_serial = ProductSerialNumber {
        product_id: new_product_id.clone(),
        serial_no: serial_no.clone(),
        print_version: 0,
        metadata: Vec::new(),
        created_at: now,
        created_by: caller.clone(),
        updated_at: now,
        updated_by: caller.clone(),
    };
    let mut list: Vec<ProductSerialNumber> = Vec::new();
    list.push(initial_serial);
    state.serial_numbers.insert(new_product_id.clone(), list);

    let record = match generate_and_store_unique_code_for_serial(
        &mut state.serial_numbers,
        &new_product_id,
        &serial_no,
        organization.private_key.as_str(),
        caller,
        now,
    ) {
        Ok(rec) => rec,
        Err(e) => {
            return ProductResult::Error(
                ApiError::internal_error("Failed to generate initial unique code"),
            );
        },
    };

    let mut metadata = input.metadata;
    let ghost base = metadata.deep_view();
    metadata.push(
        Metadata { key: "initial_unique_code".to_owned(), value: record.unique_code.clone() },
    );
    metadata.push(
        Metadata {
            key: "initial_serial_no".to_owned(),
            value: hex_encode(&record.serial_no.bytes),
        },
    );
    proof {
        lemma_dec_bytes_ascii(record.print_version as nat);
    }
    metadata.push(
        Metadata {
            key: "initial_print_version".to_owned(),
            value: ascii_to_string(dec_bytes(record.print_version as u64)),
        },
    );
    proof {
        let msg = product_msg(new_product_id@, serial_no@, 1);
        let sk = hex_decoded(organization.private_key@);
        let code = hex_of(sig_of(sk, sha256_of(msg)));
        let want = base + seq![
            MetadataV { key: "initial_unique_code"@, value: code },
            MetadataV { key: "initial_serial_no"@, value: hex_of(new_product_id@) },
            MetadataV { key: "initial_print_version"@, value: dec_chars_of(1) },
        ];
        assert(metadata@.len() == base.len() + 3);
        assert(dec_chars_of(1) =~= crate::strutil::ascii_chars_of(dec_bytes_of(1)));
        assert forall|j: int| 0 <= j < metadata@.len() implies metadata.deep_view()[j]
            == want[j] by {
            assert(metadata.deep_view()[j] == metadata@[j]@);
            if j < base.len() {
            } else if j == base.len() {
                assert(metadata@[j]@ =~= want[j]);
            } else if j == base.len() + 1 {
                assert(metadata@[j]@ =~= want[j]);
            } else {
                assert(metadata@[j]@ =~= want[j]);
            }
        }
        assert(metadata.deep_view() =~~= want);
    }
    let product = Product {
        id: new_product_id.clone(),
        name: input.name,
        org_id: input.org_id,
        category: input.category,
        description: input.description,
        metadata,
        public_key: public_key_hex,
        created_at: now,
        created_by: caller.clone(),
        updated_at: now,
        updated_by: caller.clone(),
    };
    let result_product = product.clone();
    state.products.insert(new_product_id.clone(), product);
    proof {
        let l2 = state.serial_numbers.get(new_product_id@)->0;
        assert(sn_find(l2@, serial_no@) is Some);
        if l2@[0].serial_no@ != serial_no@ {
            assert(l2@.drop_first().len() == 0);
            assert(sn_find(l2@.drop_first(), serial_no@) is None);
            assert(false);
        }
    }
    ProductResult::Product(result_product)
}

/// Rewrites a product's name, category, description and metadata. The
/// owning organization and the verification key are fixed for the
/// product's lifetime; a request naming a different organization is
/// rejected as invalid input.
pub fn update_product(state: &mut State, caller: &Id, id: &Id, input: ProductInput, now: u64) -> (r:
    ProductResult)
    requires
        old(state).wf(),
    ensures
        final(state).wf(),
        final(state).organizations == old(state).organizations,
        final(state).users == old(state).users,
        final(state).serial_numbers == old(state).serial_numbers,
        match old(state).products.get(id@) {
            None => r matches ProductResult::Error(e) && e is NotFound && *final(state) == *old(state),
            Some(product) => {
                if !spec_authorized_for_org(
                    old(state).users,
                    old(state).organizations,
                    caller@,
                    product.org_id@,
                    Permission::WriteProduct,
                ) {
                    r matches ProductResult::Error(e) && (e is NotFound || e is Unauthorized)
                        && *final(state) == *old(state)
                } else if input.org_id@ != product.org_id@ {
                    r matches ProductResult::Error(e) && e is InvalidInput && *final(state)
                        == *old(state)
                } else {
                    let expected = ProductV {
                        name: input.name@,
                        category: input.category@,
                        description: input.description@,
                        metadata: input.metadata.deep_view(),
                        updated_at: now,
                        updated_by: caller@,
                        ..product@
                    };
                    &&& r matches ProductResult::Product(p) && p@ == expected
                    &&& final(state).products.get(id@) matches Some(p2) && p2@ == expected
                    &&& forall|k2: Seq<u8>|
                        k2 != id@ ==> final(state).products.get(k2) == old(state).products.get(k2)
                }
            },
        },
{
    let product = match state.products.get_ref(id) {
        Some(p) => p.clone(),
        None => {
            return ProductResult::Error(ApiError::not_found("Product not found"));
        },
    };
    if let Err(e) = authorize_for_organization(
        &state.users,
        &state.organizations,
        caller,
        &product.org_id,
        Permission::WriteProduct,
    ) {
        return ProductResult::Error(e);
    }
    if !(input.org_id == product.org_id) {
        return ProductResult::Error(
            ApiError::invalid_input(
                "A product's organization and verification key are fixed at creation",
            ),
        );
    }
    let updated = Product {
        name: input.name,
        category: input.category,
        description: input.description,
        metadata: input.metadata,
        updated_at: now,
        updated_by: caller.clone(),
        id: product.id,
        org_id: product.org_id,
        public_key: product.public_key,
        created_at: product.created_at,
        created_by: product.created_by,
    };
    let result_product = updated.clone();
    proof {
        assert(updated@ =~= ProductV {
            name: input.name@,
            category: input.category@,
            description: input.description@,
            metadata: input.metadata.deep_view(),
            updated_at: now,
            updated_by: caller@,
            ..old(state).products.get(id@)->0@
        });
    }
    state.products.insert(id.clone(), updated);
    proof {
        let st = *state;
        assert forall|k: Seq<u8>| #[trigger] st.products.get(k) is Some implies st.product_ok(
            k,
            st.products.get(k)->0,
        ) by {
            if k != id@ {
                assert(old(state).product_ok(k, st.products.get(k)->0));
            } else {
                assert(old(state).product_ok(k, old(state).products.get(k)->0));
            }
        }
    }
    ProductResult::Product(result_product)
}

/// Looks a product up by identifier: absent products yield `Missing`;
/// the caller needs product read access within the owning organization.
pub fn get_product_by_id(state: &State, caller: &Id, id: &Id) -> (r: ProductResult)
    requires
        state.wf(),
    ensures
        match state.products.get(id@) {
            None => r is Missing,
            Some(product) => {
                if spec_authorized_for_org(
                    state.users,
                    state.organizations,
                    caller@,
                    product.org_id@,
                    Permission::ReadProduct,
                ) {
                    r matches ProductResult::Product(p) && p@ == product@
                } else {
                    r matches ProductResult::Error(e) && (e is NotFound || e is Unauthorized)
                }
            },
        },
{
    let product = match state.products.get_ref(id) {
        Some(p) => p.clone(),
        None => {
            return ProductResult::Missing;
        },
    };
    if let Err(e) = authorize_for_organization(
        &state.users,
        &state.organizations,
        caller,
        &product.org_id,
        Permission::ReadProduct,
    ) {
        return ProductResult::Error(e);
    }
    ProductResult::Product(product)
}

/// The projection from a stored product to its view.
pub open spec fn product_proj() -> spec_fn((Id, Product)) -> ProductV {
    |e: (Id, Product)| e.1@
}

/// Lists an organization's products; an unauthorized caller gets the
/// empty list, not an error.
pub fn list_products(state: &State, caller: &Id, org_id: &Id) -> (r: Vec<Product>)
    requires
        state.wf(),
    ensures
        if spec_authorized_for_org(
            state.users,
            state.organizations,
            caller@,
            org_id@,
            Permission::ReadProduct,
        ) {
            r.deep_view() == state.products.entries@.filter(
                crate::organizations::product_of_org_pred(org_id@),
            ).map_values(product_proj())
        } else {
            r@.len() == 0
        },
{
    if authorize_for_organization(
        &state.users,
        &state.organizations,
        caller,
        org_id,
        Permission::ReadProduct,
    ).is_err() {
        return Vec::new();
    }
    let ghost pred = crate::organizations::product_of_org_pred(org_id@);
    let mut result: Vec<Product> = Vec::new();
    let mut i: usize = 0;
    proof {
        crate::idmap::lemma_filter_take_zero(state.products.entries@, pred);
        assert(result.deep_view() =~~= state.products.entries@.take(0).filter(pred).map_values(
            product_proj(),
        ));
    }
    while i < state.products.entries.len()
        invariant
            state.wf(),
            i <= state.products.entries@.len(),
            result.deep_view() =~~= state.products.entries@.take(i as int).filter(
                crate::organizations::product_of_org_pred(org_id@),
            ).map_values(product_proj()),
        decreases state.products.entries@.len() - i,
    {
        let ghost entries = state.products.entries@;
        let ghost pred = crate::organizations::product_of_org_pred(org_id@);
        let ghost prev = result.deep_view();
        proof {
            crate::idmap::lemma_filter_take_step(entries, i as int, pred);
        }
        if state.products.entries[i].1.org_id == *org_id {
            let ghost prevv = result@;
            result.push(state.products.entries[i].1.clone());
            proof {
                let fprev = entries.take(i as int).filter(pred);
                let fnew = entries.take(i + 1).filter(pred);
                assert(fnew == fprev.push(entries[i as int]));
                assert(prev == fprev.map_values(product_proj()));
                assert(prev.len() == fprev.len());
                assert(prevv.len() == prev.len());
                assert(result@.len() == prevv.len() + 1);
                assert forall|j: int| 0 <= j < fnew.len() implies fnew.map_values(product_proj())[j]
                    == result.deep_view()[j] by {
                    assert(result.deep_view()[j] == result@[j]@);
                    if j < fprev.len() {
                        assert(fnew[j] == fprev[j]);
                        assert(result@[j] == prevv[j]);
                        assert(result@[j]@ == prev[j]);
                        assert(prev[j] == fprev.map_values(product_proj())[j]);
                    } else {
                        assert(fnew[j] == entries[i as int]);
                    }
                }
                assert(result.deep_view() =~~= entries.take(i + 1).filter(pred).map_values(
                    product_proj(),
                ));
            }
        } else {
            proof {
                assert(entries.take(i + 1).filter(pred) == entries.take(i as int).filter(pred));
                assert(result.deep_view() =~~= entries.take(i + 1).filter(pred).map_values(
                    product_proj(),
                ));
            }
        }
        i = i + 1;
    }
    proof {
        assert(state.products.entries@.take(state.products.entries@.len() as int)
            =~= state.products.entries@);
    }
    result
}

/// Whether a stored product record is due a fresh external review: true
/// when no generation stamp is recorded, the stamp does not parse, or it
/// is older than a day (computed against `now`, saturating at zero).
pub fn should_generate_new_review(product: &Product, now: u64) -> (r: bool)
    ensures
        ({
            let cutoff: u64 = if now >= 86400 {
                (now - 86400) as u64
            } else {
                0
            };
            match find_meta_value(product@.metadata, "latest_product_review_generation"@) {
                Some(v) => if v.len() > 0 && crate::ids::is_digits(v) && crate::ids::dec_val(v)
                    <= u64::MAX {
                    r == (crate::ids::dec_val(v) < cutoff)
                } else {
                    r == true
                },
                None => r == true,
            }
        }),
{
    let cutoff: u64 = if now >= 86400 {
        now - 86400
    } else {
        0
    };
    match crate::users::find_meta(&product.metadata, "latest_product_review_generation") {
        Some(v) => {
            match crate::ids::parse_u64(v.as_str()) {
                Some(t) => t < cutoff,
                None => true,
            }
        },
        None => true,
    }
}

/// Appends a fresh review and its generation stamp to a product's
/// metadata. `Err` (not found) exactly when the product is unknown.
pub fn update_product_with_review(
    state: &mut State,
    product_id: &Id,
    review_content: String,
    now: u64,
) -> (r: Result<Product, ApiError>)
    requires
        old(state).wf(),
    ensures
        final(state).wf(),
        final(state).organizations == old(state).organizations,
        final(state).users == old(state).users,
        final(state).serial_numbers == old(state).serial_numbers,
        match old(state).products.get(product_id@) {
            None => r matches Err(e) && e is NotFound && *final(state) == *old(state),
            Some(product) => {
                let expected = ProductV {
                    metadata: product@.metadata + seq![
                        MetadataV { key: "product_review"@, value: review_content@ },
                        MetadataV {
                            key: "latest_product_review_generation"@,
                            value: dec_chars_of(now as nat),
                        },
                    ],
                    ..product@
                };
                &&& r matches Ok(p) && p@ == expected
                &&& final(state).products.get(product_id@) matches Some(p2) && p2@ == expected
                &&& forall|k2: Seq<u8>|
                    k2 != product_id@ ==> final(state).products.get(k2) == old(state).products.get(k2)
            },
        },
{
    let product = match state.products.get_ref(product_id) {
        Some(p) => p.clone(),
        None => {
            return Err(ApiError::not_found("Product not found"));
        },
    };
    let mut metadata = product.metadata;
    let ghost base = metadata.deep_view();
    metadata.push(Metadata { key: "product_review".to_owned(), value: review_content });
    proof {
        lemma_dec_bytes_ascii(now as nat);
    }
    metadata.push(
        Metadata {
            key: "latest_product_review_generation".to_owned(),
            value: ascii_to_string(dec_bytes(now)),
        },
    );
    proof {
        let want = base + seq![
            MetadataV { key: "product_review"@, value: review_content@ },
            MetadataV {
                key: "latest_product_review_generation"@,
                value: dec_chars_of(now as nat),
            },
        ];
        assert(metadata@.len() == base.len() + 2);
        assert(dec_chars_of(now as nat) =~= crate::strutil::ascii_chars_of(
            dec_bytes_of(now as nat),
        ));
        assert forall|j: int| 0 <= j < metadata@.len() implies metadata.deep_view()[j]
            == want[j] by {
            assert(metadata.deep_view()[j] == metadata@[j]@);
            if j < base.len() {
            } else if j == base.len() {
                assert(metadata@[j]@ =~= want[j]);
            } else {
                assert(metadata@[j]@ =~= want[j]);
            }
        }
        assert(metadata.deep_view() =~~= want);
    }
    let updated = Product {
        metadata,
        id: product.id,
        name: product.name,
        org_id: product.org_id,
        category: product.category,
        description: product.description,
        public_key: product.public_key,
        created_at: product.created_at,
        created_by: product.created_by,
        updated_at: product.updated_at,
        updated_by: product.updated_by,
    };
    let result_product = updated.clone();
    state.products.insert(product_id.clone(), updated);
    proof {
        let st = *state;
        assert forall|k: Seq<u8>| #[trigger] st.products.get(k) is Some implies st.product_ok(
            k,
            st.products.get(k)->0,
        ) by {
            if k != product_id@ {
                assert(old(state).product_ok(k, st.products.get(k)->0));
            } else {
                assert(old(state).product_ok(k, old(state).products.get(k)->0));
            }
        }
    }
    Ok(result_product)
}

} // verus!

verus! {

/// Print versions rise by exactly one per run below the ceiling:
/// starting at zero, the n-th print run leaves the counter at n, so each
/// print binds a fresh version (and a fresh canonical message).
pub proof fn lemma_print_version_steps(v: u8)
    requires
        v < 255,
    ensures
        sat_bump(v) == v + 1,
{
}

} // verus!

verus! {

/// Every serial record in the store, per-product lists concatenated in
/// store order.
pub open spec fn concat_serials(s: Seq<(Id, Vec<ProductSerialNumber>)>) -> Seq<
    ProductSerialNumberV,
>
    decreases s.len(),
{
    if s.len() == 0 {
        Seq::empty()
    } else {
        s[0].1.deep_view() + concat_serials(s.drop_first())
    }
}

/// Concatenating one more product's list appends exactly that list.
proof fn lemma_concat_serials_take_step(s: Seq<(Id, Vec<ProductSerialNumber>)>, i: int)
    requires
        0 <= i < s.len(),
    ensures
        concat_serials(s.take(i + 1)) == concat_serials(s.take(i)) + s[i].1.deep_view(),
    decreases i,
{
    if i == 0 {
        assert(s.take(1)[0] == s[0]);
        assert(s.take(1).drop_first() =~= Seq::<(Id, Vec<ProductSerialNumber>)>::empty());
        assert(s.take(0) =~= Seq::<(Id, Vec<ProductSerialNumber>)>::empty());
        assert(concat_serials(s.take(1)) =~= concat_serials(s.take(0)) + s[0].1.deep_view());
    } else {
        assert(s.take(i + 1)[0] == s[0]);
        assert(s.take(i)[0] == s[0]);
        assert(s.take(i + 1).drop_first() =~= s.drop_first().take(i));
        assert(s.take(i).drop_first() =~= s.drop_first().take(i - 1));
        assert(s.drop_first()[i - 1] == s[i]);
        lemma_concat_serials_take_step(s.drop_first(), i - 1);
        assert(concat_serials(s.take(i + 1)) =~= concat_serials(s.take(i)) + s[i].1.deep_view());
    }
}

/// The serial records of one organization's products, per-product lists
/// concatenated in product-store order.
pub open spec fn org_serials(
    prods: Seq<(Id, Product)>,
    serials: IdMap<Vec<ProductSerialNumber>>,
    org: Seq<u8>,
) -> Seq<ProductSerialNumberV>
    decreases prods.len(),
{
    if prods.len() == 0 {
        Seq::empty()
    } else {
        (if prods[0].1.org_id@ == org {
            match serials.get(prods[0].0@) {
                Some(l) => l.deep_view(),
                None => Seq::empty(),
            }
        } else {
            Seq::empty()
        }) + org_serials(prods.drop_first(), serials, org)
    }
}

/// Scanning one more product appends its list when it belongs to the
/// organization.
proof fn lemma_org_serials_take_step(
    prods: Seq<(Id, Product)>,
    serials: IdMap<Vec<ProductSerialNumber>>,
    org: Seq<u8>,
    i: int,
)
    requires
        0 <= i < prods.len(),
    ensures
        org_serials(prods.take(i + 1), serials, org) == org_serials(prods.take(i), serials, org)
            + (if prods[i].1.org_id@ == org {
            match serials.get(prods[i].0@) {
                Some(l) => l.deep_view(),
                None => Seq::<ProductSerialNumberV>::empty(),
            }
        } else {
            Seq::<ProductSerialNumberV>::empty()
        }),
    decreases i,
{
    if i == 0 {
        assert(prods.take(1)[0] == prods[0]);
        assert(prods.take(1).drop_first() =~= Seq::<(Id, Product)>::empty());
        assert(prods.take(0) =~= Seq::<(Id, Product)>::empty());
        assert(org_serials(prods.take(1), serials, org) =~= org_serials(prods.take(0), serials, org)
            + (if prods[0].1.org_id@ == org {
            match serials.get(prods[0].0@) {
                Some(l) => l.deep_view(),
                None => Seq::<ProductSerialNumberV>::empty(),
            }
        } else {
            Seq::<ProductSerialNumberV>::empty()
        }));
    } else {
        assert(prods.take(i + 1)[0] == prods[0]);
        assert(prods.take(i)[0] == prods[0]);
        assert(prods.take(i + 1).drop_first() =~= prods.drop_first().take(i));
        assert(prods.take(i).drop_first() =~= prods.drop_first().take(i - 1));
        assert(prods.drop_first()[i - 1] == prods[i]);
        lemma_org_serials_take_step(prods.drop_first(), serials, org, i - 1);
        assert(org_serials(prods.take(i + 1), serials, org) =~= org_serials(
            prods.take(i),
            serials,
            org,
        ) + (if prods[i].1.org_id@ == org {
            match serials.get(prods[i].0@) {
                Some(l) => l.deep_view(),
                None => Seq::<ProductSerialNumberV>::empty(),
            }
        } else {
            Seq::<ProductSerialNumberV>::empty()
        }));
    }
}

/// Appends a copy of a serial list to an accumulator.
fn append_serials(acc: &mut Vec<ProductSerialNumber>, list: &Vec<ProductSerialNumber>)
    ensures
        final(acc)@.len() == old(acc)@.len() + list@.len(),
        final(acc).deep_view() == old(acc).deep_view() + list.deep_view(),
{
    let ghost prevv = acc@;
    let ghost prev = acc.deep_view();
    let mut copy = clone_serials(list);
    let ghost cl = copy@;
    proof {
        assert forall|j: int| 0 <= j < list@.len() implies #[trigger] cl[j]@ == list@[j]@ by {
            assert(copy.deep_view()[j] == cl[j]@);
            assert(list.deep_view()[j] == list@[j]@);
        }
    }
    acc.append(&mut copy);
    proof {
        assert(acc@.len() == prevv.len() + cl.len());
        assert forall|j: int| 0 <= j < acc@.len() implies acc.deep_view()[j] == (prev
            + list.deep_view())[j] by {
            assert(acc.deep_view()[j] == acc@[j]@);
            if j < prevv.len() {
                assert(acc@[j] == prevv[j]);
                assert(prevv[j]@ == prev[j]);
            } else {
                assert(acc@[j] == cl[j - prevv.len()]);
                assert(cl[j - prevv.len()]@ == list@[j - prevv.len()]@);
                assert(list.deep_view()[j - prevv.len()] == list@[j - prevv.len()]@);
            }
        }
        assert(acc.deep_view() =~~= prev + list.deep_view());
    }
}

/// Lists serial numbers: all of them, an organization's, or one
/// product's (the last only when the product belongs to the named
/// organization; otherwise the list is empty, not an error).
pub fn list_product_serial_numbers(
    state: &State,
    organization_id: Option<Id>,
    product_id: Option<Id>,
) -> (r: Result<Vec<ProductSerialNumber>, ApiError>)
    requires
        state.wf(),
    ensures
        r is Ok,
        match (organization_id, product_id) {
            (None, _) => r->Ok_0.deep_view() == concat_serials(state.serial_numbers.entries@),
            (Some(org), None) => r->Ok_0.deep_view() == org_serials(
                state.products.entries@,
                state.serial_numbers,
                org@,
            ),
            (Some(org), Some(pid)) => r->Ok_0.deep_view() == (
            if state.products.get(pid@) matches Some(p) && p.org_id@ == org@ {
                match state.serial_numbers.get(pid@) {
                    Some(l) => l.deep_view(),
                    None => Seq::<ProductSerialNumberV>::empty(),
                }
            } else {
                Seq::<ProductSerialNumberV>::empty()
            }),
        },
{
    match (organization_id, product_id) {
        (None, _) => {
            let mut result: Vec<ProductSerialNumber> = Vec::new();
            let mut i: usize = 0;
            proof {
                assert(state.serial_numbers.entries@.take(0) =~= Seq::<
                    (Id, Vec<ProductSerialNumber>),
                >::empty());
                assert(result.deep_view() =~~= concat_serials(
                    state.serial_numbers.entries@.take(0),
                ));
            }
            while i < state.serial_numbers.entries.len()
                invariant
                    state.wf(),
                    i <= state.serial_numbers.entries@.len(),
                    result.deep_view() =~~= concat_serials(
                        state.serial_numbers.entries@.take(i as int),
                    ),
                decreases state.serial_numbers.entries@.len() - i,
            {
                proof {
                    lemma_concat_serials_take_step(state.serial_numbers.entries@, i as int);
                }
                append_serials(&mut result, &state.serial_numbers.entries[i].1);
                i = i + 1;
            }
            proof {
                assert(state.serial_numbers.entries@.take(
                    state.serial_numbers.entries@.len() as int,
                ) =~= state.serial_numbers.entries@);
            }
            Ok(result)
        },
        (Some(org), None) => {
            let mut result: Vec<ProductSerialNumber> = Vec::new();
            let mut i: usize = 0;
            proof {
                assert(state.products.entries@.take(0) =~= Seq::<(Id, Product)>::empty());
                assert(result.deep_view() =~~= org_serials(
                    state.products.entries@.take(0),
                    state.serial_numbers,
                    org@,
                ));
            }
            while i < state.products.entries.len()
                invariant
                    state.wf(),
                    i <= state.products.entries@.len(),
                    result.deep_view() =~~= org_serials(
                        state.products.entries@.take(i as int),
                        state.serial_numbers,
                        org@,
                    ),
                decreases state.products.entries@.len() - i,
            {
                proof {
                    lemma_org_serials_take_step(
                        state.products.entries@,
                        state.serial_numbers,
                        org@,
                        i as int,
                    );
                }
                if state.products.entries[i].1.org_id == org {
                    let pid = &state.products.entries[i].0;
                    match state.serial_numbers.get_ref(pid) {
                        Some(list) => {
                            proof {
                                crate::idmap::lemma_assoc_get_at(state.products.entries@, i as int);
                            }
                            append_serials(&mut result, list);
                        },
                        None => {
                            proof {
                                crate::idmap::lemma_assoc_get_at(state.products.entries@, i as int);
                            }
                        },
                    }
                }
                i = i + 1;
            }
            proof {
                assert(state.products.entries@.take(state.products.entries@.len() as int)
                    =~= state.products.entries@);
            }
            Ok(result)
        },
        (Some(org), Some(pid)) => {
            let owned = match state.products.get_ref(&pid) {
                Some(p) => p.org_id == org,
                None => false,
            };
            if !owned {
                return Ok(Vec::new());
            }
            match state.serial_numbers.get_ref(&pid) {
                Some(list) => {
                    let mut result: Vec<ProductSerialNumber> = Vec::new();
                    append_serials(&mut result, list);
                    Ok(result)
                },
                None => Ok(Vec::new()),
            }
        },
    }
}

} // verus!
