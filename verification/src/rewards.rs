//! First-scan rewards: which (user, product) pairs have already earned the
//! first-verification bonus, additive point totals per user, and the
//! promotion side table. Totals only ever grow (saturating at the type's
//! maximum).

use vstd::prelude::*;

verus! {

use crate::api::VerificationRewards;
use crate::idmap::IdMap;
use crate::ids::Id;
use crate::model::clone_metadatas;
use crate::model::ids_contain;
use crate::model::ids_contains;
use crate::model::Metadata;
use crate::model::ProductVerificationStatus;

/// Points for the first verification of a product by a user.
pub const FIRST_VERIFICATION_POINTS: u32 = 100;

/// Points for a repeat verification.
pub const MULTIPLE_VERIFICATION_POINTS: u32 = 10;

/// Bonus when the product has a promotion.
pub const SPECIAL_PROMOTION_POINTS: u32 = 50;

/// A user's running reward totals. Never decreased.
pub struct UserRewards {
    pub user_id: Id,
    pub total_points: u32,
    pub verification_count: u32,
    pub first_verifications: u32,
    pub last_reward_time: u64,
    pub metadata: Vec<Metadata>,
}

impl Clone for UserRewards {
    fn clone(&self) -> (r: UserRewards)
        ensures
            r.user_id@ == self.user_id@,
            r.total_points == self.total_points,
            r.verification_count == self.verification_count,
            r.first_verifications == self.first_verifications,
            r.last_reward_time == self.last_reward_time,
            r.metadata.deep_view() == self.metadata.deep_view(),
    {
        UserRewards {
            user_id: self.user_id.clone(),
            total_points: self.total_points,
            verification_count: self.verification_count,
            first_verifications: self.first_verifications,
            last_reward_time: self.last_reward_time,
            metadata: clone_metadatas(&self.metadata),
        }
    }
}

/// The products a user has already been credited a first verification for.
/// Grows monotonically.
pub struct UserVerifiedProducts {
    pub user_id: Id,
    pub verified_products: Vec<Id>,
}

/// Base points for a classification.
pub open spec fn base_points(status: ProductVerificationStatus) -> u32 {
    match status {
        ProductVerificationStatus::FirstVerification => FIRST_VERIFICATION_POINTS,
        ProductVerificationStatus::MultipleVerification => MULTIPLE_VERIFICATION_POINTS,
        ProductVerificationStatus::Invalid => 0,
    }
}

/// The reward ledger: totals, first-verification marks, and promotions.
pub struct RewardLedger {
    pub user_rewards: IdMap<UserRewards>,
    pub verified_products: IdMap<UserVerifiedProducts>,
    pub promotions: IdMap<Metadata>,
}

impl RewardLedger {
    /// Well-formed: each inner map is.
    pub open spec fn wf(self) -> bool {
        self.user_rewards.wf() && self.verified_products.wf() && self.promotions.wf()
    }

    /// Whether `product` would be a first verification for `user`.
    pub open spec fn spec_is_first(self, user: Seq<u8>, product: Seq<u8>) -> bool {
        match self.verified_products.get(user) {
            Some(uv) => !ids_contain(uv.verified_products.deep_view(), product),
            None => true,
        }
    }

    /// The bonus points the product's promotion contributes.
    pub open spec fn spec_promo_points(self, product: Seq<u8>) -> u32 {
        if self.promotions.get(product) is Some {
            SPECIAL_PROMOTION_POINTS
        } else {
            0
        }
    }

    /// An empty ledger.
    pub fn new() -> (r: RewardLedger)
        ensures
            r.wf(),
            forall|u: Seq<u8>, p: Seq<u8>| r.spec_is_first(u, p),
            forall|u: Seq<u8>| r.user_rewards.get(u) is None,
            forall|p: Seq<u8>| r.promotions.get(p) is None,
    {
        RewardLedger {
            user_rewards: IdMap::new(),
            verified_products: IdMap::new(),
            promotions: IdMap::new(),
        }
    }

    /// True iff `product` is absent from `user`'s verified set.
    pub fn is_first_verification_for_user(&self, user_id: &Id, product_id: &Id) -> (r: bool)
        requires
            self.wf(),
        ensures
            r == self.spec_is_first(user_id@, product_id@),
    {
        match self.verified_products.get_ref(user_id) {
            Some(uv) => !ids_contains(&uv.verified_products, product_id),
            None => true,
        }
    }

    /// Marks `product` verified for `user` (idempotent insert).
    pub fn record_product_verification(&mut self, user_id: &Id, product_id: &Id)
        requires
            old(self).wf(),
        ensures
            final(self).wf(),
            !final(self).spec_is_first(user_id@, product_id@),
            // A repeat call changes nothing at all: the mark is set once.
            !old(self).spec_is_first(user_id@, product_id@) ==> *final(self) == *old(self),
            forall|u2: Seq<u8>, p2: Seq<u8>|
                !(u2 == user_id@ && p2 == product_id@) ==> final(self).spec_is_first(u2, p2) == old(
                    self,
                ).spec_is_first(u2, p2),
            final(self).user_rewards == old(self).user_rewards,
            final(self).promotions == old(self).promotions,
    {
        let pre = self.verified_products.get_ref(user_id);
        match pre {
            Some(uv) => {
                if ids_contains(&uv.verified_products, product_id) {
                    assert(!self.spec_is_first(user_id@, product_id@));
                    return ;
                }
                let mut list = crate::model::clone_ids(&uv.verified_products);
                list.push(product_id.clone());
                assert(list.deep_view() =~= uv.verified_products.deep_view().push(product_id@));
                let updated = UserVerifiedProducts {
                    user_id: user_id.clone(),
                    verified_products: list,
                };
                let ghost old_map = self.verified_products;
                self.verified_products.insert(user_id.clone(), updated);
                proof {
                    assert(ids_contain(
                        final(self).verified_products.get(
                            user_id@,
                        )->0.verified_products.deep_view(),
                        product_id@,
                    )) by {
                        let dv = final(self).verified_products.get(
                            user_id@,
                        )->0.verified_products.deep_view();
                        assert(dv[dv.len() - 1] == product_id@);
                    }
                    assert forall|u2: Seq<u8>, p2: Seq<u8>|
                        !(u2 == user_id@ && p2 == product_id@) implies final(self).spec_is_first(
                        u2,
                        p2,
                    ) == old(self).spec_is_first(u2, p2) by {
                        if u2 == user_id@ {
                            let pre_dv = old(self).verified_products.get(
                                u2,
                            )->0.verified_products.deep_view();
                            let post_dv = final(self).verified_products.get(
                                u2,
                            )->0.verified_products.deep_view();
                            assert(post_dv =~= pre_dv.push(product_id@));
                            if ids_contain(pre_dv, p2) {
                                let j = choose|j: int| 0 <= j < pre_dv.len() && pre_dv[j] == p2;
                                assert(post_dv[j] == p2);
                            } else if ids_contain(post_dv, p2) {
                                let j = choose|j: int| 0 <= j < post_dv.len() && post_dv[j] == p2;
                                assert(j < pre_dv.len() || post_dv[j] == product_id@);
                            }
                        }
                    }
                }
            },
            None => {
                let mut list: Vec<Id> = Vec::new();
                list.push(product_id.clone());
                let updated = UserVerifiedProducts {
                    user_id: user_id.clone(),
                    verified_products: list,
                };
                self.verified_products.insert(user_id.clone(), updated);
                proof {
                    let dv = final(self).verified_products.get(
                        user_id@,
                    )->0.verified_products.deep_view();
                    assert(dv[0] == product_id@);
                }
            },
        }
    }

    /// The promotion for a product, if one is configured.
    pub fn get_special_promotion(&self, product_id: &Id) -> (r: Option<Metadata>)
        requires
            self.wf(),
        ensures
            r is Some <==> self.promotions.get(product_id@) is Some,
            r is Some ==> r->0@ == self.promotions.get(product_id@)->0@,
    {
        match self.promotions.get_ref(product_id) {
            Some(m) => Some(m.clone()),
            None => None,
        }
    }

    /// Configures a promotion for a product.
    pub fn add_special_promotion(&mut self, product_id: Id, promotion_name: &str, promotion_value: &str)
        requires
            old(self).wf(),
        ensures
            final(self).wf(),
            final(self).promotions.get(product_id@) matches Some(m) && m@.key == promotion_name@
                && m@.value == promotion_value@,
            forall|p2: Seq<u8>|
                p2 != product_id@ ==> final(self).promotions.get(p2) == old(self).promotions.get(
                    p2,
                ),
            final(self).user_rewards == old(self).user_rewards,
            final(self).verified_products == old(self).verified_products,
    {
        let metadata = Metadata::new(promotion_name, promotion_value);
        self.promotions.insert(product_id, metadata);
    }

    /// Removes a product's promotion.
    pub fn remove_special_promotion(&mut self, product_id: &Id)
        requires
            old(self).wf(),
        ensures
            final(self).wf(),
            final(self).promotions.get(product_id@) is None,
            forall|p2: Seq<u8>|
                p2 != product_id@ ==> final(self).promotions.get(p2) == old(self).promotions.get(
                    p2,
                ),
            final(self).user_rewards == old(self).user_rewards,
            final(self).verified_products == old(self).verified_products,
    {
        self.promotions.remove_key(product_id);
    }

    /// A user's totals, if any were ever credited.
    pub fn get_user_rewards(&self, user_id: &Id) -> (r: Option<UserRewards>)
        requires
            self.wf(),
        ensures
            r is Some <==> self.user_rewards.get(user_id@) is Some,
            r matches Some(ur) ==> {
                let stored = self.user_rewards.get(user_id@)->0;
                &&& ur.user_id@ == stored.user_id@
                &&& ur.total_points == stored.total_points
                &&& ur.verification_count == stored.verification_count
                &&& ur.first_verifications == stored.first_verifications
                &&& ur.last_reward_time == stored.last_reward_time
            },
    {
        match self.user_rewards.get_ref(user_id) {
            Some(ur) => Some(ur.clone()),
            None => None,
        }
    }

    /// Credits points to a user: create-if-absent, then add points, count
    /// the verification, count a first verification when applicable, and
    /// refresh the reward time. Additions saturate.
    fn update_user_rewards(&mut self, user_id: &Id, points: u32, is_first: bool, now: u64)
        requires
            old(self).wf(),
        ensures
            final(self).wf(),
            ({
                let post = final(self).user_rewards.get(user_id@);
                &&& post matches Some(ur2)
                &&& ur2.user_id@ == user_id@
                &&& ur2.last_reward_time == now
                &&& match old(self).user_rewards.get(user_id@) {
                    Some(ur) => {
                        &&& ur2.total_points == if ur.total_points + points <= u32::MAX {
                            (ur.total_points + points) as u32
                        } else {
                            u32::MAX
                        }
                        &&& ur2.verification_count == if ur.verification_count + 1 <= u32::MAX {
                            (ur.verification_count + 1) as u32
                        } else {
                            u32::MAX
                        }
                        &&& ur2.first_verifications == if is_first {
                            if ur.first_verifications + 1 <= u32::MAX {
                                (ur.first_verifications + 1) as u32
                            } else {
                                u32::MAX
                            }
                        } else {
                            ur.first_verifications
                        }
                    },
                    None => {
                        &&& ur2.total_points == points
                        &&& ur2.verification_count == 1
                        &&& ur2.first_verifications == if is_first {
                            1u32
                        } else {
                            0u32
                        }
                    },
                }
            }),
            forall|u2: Seq<u8>|
                u2 != user_id@ ==> final(self).user_rewards.get(u2) == old(self).user_rewards.get(
                    u2,
                ),
            final(self).verified_products == old(self).verified_products,
            final(self).promotions == old(self).promotions,
    {
        let pre = self.user_rewards.get_ref(user_id);
        let updated = match pre {
            Some(ur) => UserRewards {
                user_id: user_id.clone(),
                total_points: ur.total_points.saturating_add(points),
                verification_count: ur.verification_count.saturating_add(1),
                first_verifications: if is_first {
                    ur.first_verifications.saturating_add(1)
                } else {
                    ur.first_verifications
                },
                last_reward_time: now,
                metadata: clone_metadatas(&ur.metadata),
            },
            None => UserRewards {
                user_id: user_id.clone(),
                total_points: points,
                verification_count: 1,
                first_verifications: if is_first {
                    1
                } else {
                    0
                },
                last_reward_time: now,
                metadata: Vec::new(),
            },
        };
        self.user_rewards.insert(user_id.clone(), updated);
    }

    /// Computes and credits the reward of one verification. An invalid
    /// verification earns nothing and changes nothing. A valid one earns
    /// its base points by classification plus the promotion bonus when one
    /// is configured, marks the product verified for the user, and credits
    /// the points to the user's totals.
    pub fn calculate_verification_rewards(
        &mut self,
        user_id: &Id,
        product_id: &Id,
        verification_status: &ProductVerificationStatus,
        now: u64,
    ) -> (r: VerificationRewards)
        requires
            old(self).wf(),
        ensures
            final(self).wf(),
            r.is_first_verification == old(self).spec_is_first(user_id@, product_id@),
            // An invalid verification earns nothing and changes nothing.
            *verification_status is Invalid ==> (r.points == 0 && r.special_reward is None
                && r.reward_description is None && *final(self) == *old(self)),
            !(*verification_status is Invalid) ==> {
                &&& r.points == base_points(*verification_status) + old(self).spec_promo_points(
                    product_id@,
                )
                &&& (r.special_reward is Some <==> old(self).promotions.get(product_id@) is Some)
                &&& (r.special_reward matches Some(s) ==> s@ == old(self).promotions.get(
                    product_id@,
                )->0@.value)
                &&& (r.reward_description is Some <==> old(self).promotions.get(
                    product_id@,
                ) is Some)
                &&& !final(self).spec_is_first(user_id@, product_id@)
                &&& forall|u2: Seq<u8>, p2: Seq<u8>|
                    !(u2 == user_id@ && p2 == product_id@) ==> final(self).spec_is_first(u2, p2)
                        == old(self).spec_is_first(u2, p2)
                &&& final(self).promotions == old(self).promotions
                &&& ({
                    let total = base_points(*verification_status) + old(self).spec_promo_points(
                        product_id@,
                    );
                    let post = final(self).user_rewards.get(user_id@);
                    &&& post matches Some(ur2)
                    &&& ur2.user_id@ == user_id@
                    &&& ur2.last_reward_time == now
                    &&& match old(self).user_rewards.get(user_id@) {
                        Some(ur) => ur2.total_points == if ur.total_points + total <= u32::MAX {
                            (ur.total_points + total) as u32
                        } else {
                            u32::MAX
                        } && ur2.verification_count == if ur.verification_count + 1 <= u32::MAX {
                            (ur.verification_count + 1) as u32
                        } else {
                            u32::MAX
                        } && ur2.first_verifications == if old(self).spec_is_first(
                            user_id@,
                            product_id@,
                        ) {
                            if ur.first_verifications + 1 <= u32::MAX {
                                (ur.first_verifications + 1) as u32
                            } else {
                                u32::MAX
                            }
                        } else {
                            ur.first_verifications
                        },
                        None => ur2.total_points == total && ur2.verification_count == 1
                            && ur2.first_verifications == if old(self).spec_is_first(
                            user_id@,
                            product_id@,
                        ) {
                            1u32
                        } else {
                            0u32
                        },
                    }
                    &&& forall|u2: Seq<u8>|
                        u2 != user_id@ ==> final(self).user_rewards.get(u2) == old(
                            self,
                        ).user_rewards.get(u2)
                })
            },
    {
        let is_first = self.is_first_verification_for_user(user_id, product_id);

        let is_invalid = match verification_status {
            ProductVerificationStatus::Invalid => true,
            _ => false,
        };
        if is_invalid {
            return VerificationRewards {
                points: 0,
                is_first_verification: is_first,
                special_reward: None,
                reward_description: None,
            };
        }

        let bp: u32 = match verification_status {
            ProductVerificationStatus::FirstVerification => FIRST_VERIFICATION_POINTS,
            ProductVerificationStatus::MultipleVerification => MULTIPLE_VERIFICATION_POINTS,
            ProductVerificationStatus::Invalid => 0,
        };

        let special_reward = self.get_special_promotion(product_id);
        let promotion_points: u32 = if special_reward.is_some() {
            SPECIAL_PROMOTION_POINTS
        } else {
            0
        };

        self.record_product_verification(user_id, product_id);

        let total_points = bp + promotion_points;
        self.update_user_rewards(user_id, total_points, is_first, now);

        let (special_value, description): (Option<String>, Option<String>) = match &special_reward {
            Some(m) => {
                let mut d = String::from_str("Special reward: ");
                d.append(m.value.as_str());
                (Some(m.value.clone()), Some(d))
            },
            None => (None, None),
        };

        VerificationRewards {
            points: total_points,
            is_first_verification: is_first,
            special_reward: special_value,
            reward_description: description,
        }
    }

    /// Administrative clear of the whole ledger.
    pub fn reset_rewards_storage(&mut self)
        ensures
            final(self).wf(),
            forall|u2: Seq<u8>| final(self).user_rewards.get(u2) is None,
            forall|u2: Seq<u8>, p2: Seq<u8>| final(self).spec_is_first(u2, p2),
            forall|p2: Seq<u8>| final(self).promotions.get(p2) is None,
    {
        self.user_rewards.clear_all();
        self.verified_products.clear_all();
        self.promotions.clear_all();
    }
}

/// The first reward for a (user, product) pair is computed with
/// `is_first_verification == true` and carries the first-verification
/// points (plus the promotion bonus when one is configured); afterwards
/// the pair is marked, and every later computation for it reports
/// `is_first_verification == false`, whatever status it is passed.
///
/// The hypotheses are exactly what `calculate_verification_rewards`
/// promises of its result and of the state it leaves behind.
pub proof fn lemma_first_verification_reward(
    pre: RewardLedger,
    post: RewardLedger,
    u: Seq<u8>,
    p: Seq<u8>,
    r1: VerificationRewards,
    r2: VerificationRewards,
)
    requires
        pre.spec_is_first(u, p),
        r1.is_first_verification == pre.spec_is_first(u, p),
        r1.points == base_points(ProductVerificationStatus::FirstVerification)
            + pre.spec_promo_points(p),
        !post.spec_is_first(u, p),
        r2.is_first_verification == post.spec_is_first(u, p),
    ensures
        r1.is_first_verification,
        pre.promotions.get(p) is None ==> r1.points == 100,
        pre.promotions.get(p) is Some ==> r1.points == 150,
        !r2.is_first_verification,
{
}

} // verus!
