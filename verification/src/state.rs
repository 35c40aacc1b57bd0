//! The process-wide store: one owner per collection, exclusive-borrow
//! access per operation. The invariant ties every product's verification
//! key to its organization's signing key, which is what makes printed
//! codes verify.

use vstd::prelude::*;

verus! {

use crate::crypto::pubkey_of;
use crate::crypto::sec1_pubkey_ok;
use crate::crypto::secret_key_ok;
use crate::hexstr::hex_decoded;
use crate::hexstr::hex_of;
use crate::hexstr::is_hex_seq;
use crate::idmap::IdMap;
use crate::ids::Id;
use crate::model::Organization;
use crate::model::Product;
use crate::model::ProductSerialNumber;
use crate::model::ProductVerification;
use crate::model::Reseller;
use crate::model::User;
use crate::rate_limiter::RateLimiter;
use crate::rewards::RewardLedger;

/// A hex-encoded organization signing key that decodes to a usable
/// secret key.
pub open spec fn org_key_wf(private_key_hex: Seq<char>) -> bool {
    &&& is_hex_seq(private_key_hex)
    &&& secret_key_ok(hex_decoded(private_key_hex))
}

/// Everything the operations read and write.
pub struct State {
    pub organizations: IdMap<Organization>,
    pub products: IdMap<Product>,
    pub users: IdMap<User>,
    pub resellers: IdMap<Reseller>,
    /// Per-product ordered list of serial numbers; mutations replace the
    /// whole list atomically.
    pub serial_numbers: IdMap<Vec<ProductSerialNumber>>,
    /// Per-product ordered list of verifications; appended, and patched
    /// in place only by redemption.
    pub verifications: IdMap<Vec<ProductVerification>>,
    pub rate_limits: RateLimiter,
    pub rewards: RewardLedger,
    /// Admin-set key for the external review integration; empty until set.
    pub config_openai_api_key: String,
    /// Admin-set URL of the external scraper; empty until set.
    pub config_scraper_url: String,
}

impl State {
    /// The stored product record under a key answers to that key and its
    /// organization: the organization exists, holds a usable signing key,
    /// and the product's public key is the hex of the derived
    /// verification key.
    pub open spec fn product_ok(self, k: Seq<u8>, p: Product) -> bool {
        &&& p.id@ == k
        &&& self.organizations.get(p.org_id@) is Some
        &&& {
            let o = self.organizations.get(p.org_id@)->0;
            &&& p.public_key@ == hex_of(pubkey_of(hex_decoded(o.private_key@)))
            &&& sec1_pubkey_ok(pubkey_of(hex_decoded(o.private_key@)))
        }
    }

    /// Well-formedness: distinct keys throughout, every organization's
    /// signing key usable, every product keyed by its id and tied to its
    /// organization's key, serial lists only under known products, and
    /// serial numbers unique within each product's list.
    pub open spec fn wf(self) -> bool {
        &&& self.organizations.wf()
        &&& self.products.wf()
        &&& self.users.wf()
        &&& self.resellers.wf()
        &&& self.serial_numbers.wf()
        &&& self.verifications.wf()
        &&& self.rate_limits.wf()
        &&& self.rewards.wf()
        &&& forall|k: Seq<u8>|
            #[trigger] self.organizations.get(k) is Some ==> self.organizations.get(k)->0.id@ == k
                && org_key_wf(self.organizations.get(k)->0.private_key@)
        &&& forall|k: Seq<u8>|
            #[trigger] self.products.get(k) is Some ==> self.product_ok(k, self.products.get(k)->0)
        &&& forall|k: Seq<u8>|
            #[trigger] self.serial_numbers.get(k) is Some ==> self.products.get(k) is Some
        &&& serials_distinct(self.serial_numbers)
    }

    /// An empty store.
    pub fn new() -> (r: State)
        ensures
            r.wf(),
            forall|k: Seq<u8>| r.organizations.get(k) is None,
            forall|k: Seq<u8>| r.products.get(k) is None,
            forall|k: Seq<u8>| r.users.get(k) is None,
            forall|k: Seq<u8>| r.resellers.get(k) is None,
            forall|k: Seq<u8>| r.serial_numbers.get(k) is None,
            forall|k: Seq<u8>| r.verifications.get(k) is None,
            forall|u: Seq<u8>, p: Seq<u8>| r.rate_limits.get(u, p) is None,
            forall|u: Seq<u8>, p: Seq<u8>| r.rewards.spec_is_first(u, p),
            forall|u: Seq<u8>| r.rewards.user_rewards.get(u) is None,
            forall|p: Seq<u8>| r.rewards.promotions.get(p) is None,
    {
        State {
            organizations: IdMap::new(),
            products: IdMap::new(),
            users: IdMap::new(),
            resellers: IdMap::new(),
            serial_numbers: IdMap::new(),
            verifications: IdMap::new(),
            rate_limits: RateLimiter::new(),
            rewards: RewardLedger::new(),
            config_openai_api_key: String::new(),
            config_scraper_url: String::new(),
        }
    }
}

/// No two serial records in a list share a serial number.
pub open spec fn sn_distinct(list: Seq<ProductSerialNumber>) -> bool {
    forall|a: int, b: int| 0 <= a < b < list.len() ==> list[a].serial_no@ != list[b].serial_no@
}

/// Every stored serial list has pairwise-distinct serial numbers.
pub open spec fn serials_distinct(m: IdMap<Vec<ProductSerialNumber>>) -> bool {
    forall|k: Seq<u8>| #[trigger] m.get(k) is Some ==> sn_distinct(m.get(k)->0@)
}

/// First serial record in a list with these serial-number bytes.
pub open spec fn sn_find(list: Seq<ProductSerialNumber>, sn: Seq<u8>) -> Option<ProductSerialNumber>
    decreases list.len(),
{
    if list.len() == 0 {
        None
    } else if list[0].serial_no@ == sn {
        Some(list[0])
    } else {
        sn_find(list.drop_first(), sn)
    }
}

/// If no earlier record matches and the one at `i` does, the scan stops
/// there.
pub proof fn lemma_sn_find_hit(list: Seq<ProductSerialNumber>, i: int, sn: Seq<u8>)
    requires
        0 <= i < list.len(),
        forall|j: int| 0 <= j < i ==> list[j].serial_no@ != sn,
        list[i].serial_no@ == sn,
    ensures
        sn_find(list, sn) == Some(list[i]),
    decreases list.len(),
{
    if i == 0 {
    } else {
        assert(list.drop_first()[i - 1] == list[i]);
        assert forall|j: int| 0 <= j < i - 1 implies list.drop_first()[j].serial_no@ != sn by {
            assert(list.drop_first()[j] == list[j + 1]);
        }
        lemma_sn_find_hit(list.drop_first(), i - 1, sn);
    }
}

/// If no record matches, the scan finds nothing.
pub proof fn lemma_sn_find_miss(list: Seq<ProductSerialNumber>, sn: Seq<u8>)
    requires
        forall|j: int| 0 <= j < list.len() ==> list[j].serial_no@ != sn,
    ensures
        sn_find(list, sn) is None,
    decreases list.len(),
{
    if list.len() == 0 {
    } else {
        assert forall|j: int| 0 <= j < list.drop_first().len()
            implies list.drop_first()[j].serial_no@ != sn by {
            assert(list.drop_first()[j] == list[j + 1]);
        }
        lemma_sn_find_miss(list.drop_first(), sn);
    }
}

/// A scan that found nothing found nothing at any index.
pub proof fn lemma_sn_find_none_forall(list: Seq<ProductSerialNumber>, sn: Seq<u8>)
    requires
        sn_find(list, sn) is None,
    ensures
        forall|j: int| 0 <= j < list.len() ==> (#[trigger] list[j]).serial_no@ != sn,
    decreases list.len(),
{
    if list.len() == 0 {
    } else {
        lemma_sn_find_none_forall(list.drop_first(), sn);
        assert forall|j: int| 0 <= j < list.len() implies (#[trigger] list[j]).serial_no@ != sn by {
            if j > 0 {
                assert(list.drop_first()[j - 1] == list[j]);
            }
        }
    }
}

/// Index of the first serial record with these bytes, if any.
pub fn find_serial_in_list(list: &Vec<ProductSerialNumber>, sn: &Id) -> (r: Option<usize>)
    ensures
        match r {
            Some(i) => i < list@.len() && list@[i as int].serial_no@ == sn@ && (forall|j: int|
                0 <= j < i ==> list@[j].serial_no@ != sn@) && sn_find(list@, sn@) == Some(
                list@[i as int],
            ),
            None => sn_find(list@, sn@) is None,
        },
{
    let mut i: usize = 0;
    while i < list.len()
        invariant
            i <= list@.len(),
            forall|j: int| 0 <= j < i ==> list@[j].serial_no@ != sn@,
        decreases list@.len() - i,
    {
        if list[i].serial_no == *sn {
            proof {
                lemma_sn_find_hit(list@, i as int, sn@);
            }
            return Some(i);
        }
        i = i + 1;
    }
    proof {
        lemma_sn_find_miss(list@, sn@);
    }
    None
}

/// First (product, serial record) pair, in store order, whose list holds
/// these serial-number bytes.
pub open spec fn find_serial(s: Seq<(Id, Vec<ProductSerialNumber>)>, sn: Seq<u8>) -> Option<
    (Id, ProductSerialNumber),
>
    decreases s.len(),
{
    if s.len() == 0 {
        None
    } else if sn_find(s[0].1@, sn) is Some {
        Some((s[0].0, sn_find(s[0].1@, sn)->0))
    } else {
        find_serial(s.drop_first(), sn)
    }
}

/// If no earlier list holds the serial and the one at `i` does, the scan
/// stops there.
pub proof fn lemma_find_serial_hit(s: Seq<(Id, Vec<ProductSerialNumber>)>, i: int, sn: Seq<u8>)
    requires
        0 <= i < s.len(),
        forall|j: int| 0 <= j < i ==> sn_find(#[trigger] s[j].1@, sn) is None,
        sn_find(s[i].1@, sn) is Some,
    ensures
        find_serial(s, sn) == Some((s[i].0, sn_find(s[i].1@, sn)->0)),
    decreases s.len(),
{
    if i == 0 {
    } else {
        assert(s.drop_first()[i - 1] == s[i]);
        assert forall|j: int| 0 <= j < i - 1 implies sn_find(
            #[trigger] s.drop_first()[j].1@,
            sn,
        ) is None by {
            assert(s.drop_first()[j] == s[j + 1]);
        }
        lemma_find_serial_hit(s.drop_first(), i - 1, sn);
    }
}

/// If no list holds the serial, the scan finds nothing.
pub proof fn lemma_find_serial_miss(s: Seq<(Id, Vec<ProductSerialNumber>)>, sn: Seq<u8>)
    requires
        forall|j: int| 0 <= j < s.len() ==> sn_find(#[trigger] s[j].1@, sn) is None,
    ensures
        find_serial(s, sn) is None,
    decreases s.len(),
{
    if s.len() == 0 {
    } else {
        assert forall|j: int| 0 <= j < s.drop_first().len() implies sn_find(
            #[trigger] s.drop_first()[j].1@,
            sn,
        ) is None by {
            assert(s.drop_first()[j] == s[j + 1]);
        }
        lemma_find_serial_miss(s.drop_first(), sn);
    }
}

/// Resolves a serial number to its product and stored record, scanning
/// the per-product lists in store order. Returns copies.
pub fn find_serial_exec(serials: &IdMap<Vec<ProductSerialNumber>>, sn: &Id) -> (r: Option<
    (Id, ProductSerialNumber),
>)
    requires
        serials.wf(),
    ensures
        r is Some <==> find_serial(serials.entries@, sn@) is Some,
        r matches Some(pair) ==> {
            let found = find_serial(serials.entries@, sn@)->0;
            &&& pair.0@ == found.0@
            &&& pair.1@ == found.1@
            &&& serials.get(pair.0@) is Some
            &&& sn_find(serials.get(pair.0@)->0@, sn@) == Some(found.1)
        },
{
    let mut i: usize = 0;
    while i < serials.entries.len()
        invariant
            serials.wf(),
            i <= serials.entries@.len(),
            forall|j: int| 0 <= j < i ==> sn_find(#[trigger] serials.entries@[j].1@, sn@) is None,
        decreases serials.entries@.len() - i,
    {
        match find_serial_in_list(&serials.entries[i].1, sn) {
            Some(j) => {
                proof {
                    lemma_find_serial_hit(serials.entries@, i as int, sn@);
                    crate::idmap::lemma_assoc_get_at(serials.entries@, i as int);
                }
                return Some((serials.entries[i].0.clone(), serials.entries[i].1[j].clone()));
            },
            None => {},
        }
        i = i + 1;
    }
    proof {
        lemma_find_serial_miss(serials.entries@, sn@);
    }
    None
}

/// Whether a verification record belongs to this creator, serial and
/// version.
pub open spec fn pv_matches(
    v: ProductVerification,
    creator: Seq<u8>,
    sn: Seq<u8>,
    version: u8,
) -> bool {
    v.created_by@ == creator && v.serial_no@ == sn && v.print_version == version
}

/// Index of the first matching verification record, if any.
pub open spec fn pv_find_index(
    list: Seq<ProductVerification>,
    creator: Seq<u8>,
    sn: Seq<u8>,
    version: u8,
) -> Option<int>
    decreases list.len(),
{
    if list.len() == 0 {
        None
    } else if pv_matches(list[0], creator, sn, version) {
        Some(0)
    } else {
        match pv_find_index(list.drop_first(), creator, sn, version) {
            Some(i) => Some(i + 1),
            None => None,
        }
    }
}

/// The index the scan stops at is the first match.
pub proof fn lemma_pv_find_hit(
    list: Seq<ProductVerification>,
    i: int,
    creator: Seq<u8>,
    sn: Seq<u8>,
    version: u8,
)
    requires
        0 <= i < list.len(),
        forall|j: int| 0 <= j < i ==> !pv_matches(#[trigger] list[j], creator, sn, version),
        pv_matches(list[i], creator, sn, version),
    ensures
        pv_find_index(list, creator, sn, version) == Some(i),
    decreases list.len(),
{
    if i == 0 {
    } else {
        assert(list.drop_first()[i - 1] == list[i]);
        assert forall|j: int| 0 <= j < i - 1 implies !pv_matches(
            #[trigger] list.drop_first()[j],
            creator,
            sn,
            version,
        ) by {
            assert(list.drop_first()[j] == list[j + 1]);
        }
        lemma_pv_find_hit(list.drop_first(), i - 1, creator, sn, version);
    }
}

/// If nothing matches, the scan finds nothing.
pub proof fn lemma_pv_find_miss(
    list: Seq<ProductVerification>,
    creator: Seq<u8>,
    sn: Seq<u8>,
    version: u8,
)
    requires
        forall|j: int| 0 <= j < list.len() ==> !pv_matches(#[trigger] list[j], creator, sn, version),
    ensures
        pv_find_index(list, creator, sn, version) is None,
    decreases list.len(),
{
    if list.len() == 0 {
    } else {
        assert forall|j: int| 0 <= j < list.drop_first().len() implies !pv_matches(
            #[trigger] list.drop_first()[j],
            creator,
            sn,
            version,
        ) by {
            assert(list.drop_first()[j] == list[j + 1]);
        }
        lemma_pv_find_miss(list.drop_first(), creator, sn, version);
    }
}

/// A found index is in range and is the first match.
pub proof fn lemma_pv_find_index_props(
    list: Seq<ProductVerification>,
    creator: Seq<u8>,
    sn: Seq<u8>,
    version: u8,
)
    ensures
        pv_find_index(list, creator, sn, version) matches Some(i) ==> 0 <= i < list.len()
            && pv_matches(list[i], creator, sn, version),
    decreases list.len(),
{
    if list.len() == 0 {
    } else if pv_matches(list[0], creator, sn, version) {
    } else {
        lemma_pv_find_index_props(list.drop_first(), creator, sn, version);
        if pv_find_index(list.drop_first(), creator, sn, version) is Some {
            let i = pv_find_index(list.drop_first(), creator, sn, version)->0;
            assert(list.drop_first()[i] == list[i + 1]);
        }
    }
}

/// Finds the verification record for a creator, serial and version.
pub fn find_verification_index(
    list: &Vec<ProductVerification>,
    creator: &Id,
    sn: &Id,
    version: u8,
) -> (r: Option<usize>)
    ensures
        match r {
            Some(i) => pv_find_index(list@, creator@, sn@, version) == Some(i as int) && i
                < list@.len() && pv_matches(list@[i as int], creator@, sn@, version),
            None => pv_find_index(list@, creator@, sn@, version) is None,
        },
{
    let mut i: usize = 0;
    while i < list.len()
        invariant
            i <= list@.len(),
            forall|j: int| 0 <= j < i ==> !pv_matches(#[trigger] list@[j], creator@, sn@, version),
        decreases list@.len() - i,
    {
        if list[i].created_by == *creator && list[i].serial_no == *sn && list[i].print_version
            == version {
            proof {
                lemma_pv_find_hit(list@, i as int, creator@, sn@, version);
            }
            return Some(i);
        }
        i = i + 1;
    }
    proof {
        lemma_pv_find_miss(list@, creator@, sn@, version);
    }
    None
}

} // verus!
