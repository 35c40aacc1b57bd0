//! Data model: organizations, products, per-unit serial numbers,
//! verification records, users and resellers, together with the ghost views
//! that contracts are stated over.

use vstd::prelude::*;

verus! {

use crate::errors::ApiError;
use crate::ids::Id;

/// A free-form key/value pair attached to records.
pub struct Metadata {
    pub key: String,
    pub value: String,
}

/// Ghost view of [`Metadata`].
#[verifier::ext_equal]
pub ghost struct MetadataV {
    pub key: Seq<char>,
    pub value: Seq<char>,
}

impl View for Metadata {
    type V = MetadataV;

    open spec fn view(&self) -> MetadataV {
        MetadataV { key: self.key@, value: self.value@ }
    }
}

impl DeepView for Metadata {
    type V = MetadataV;

    open spec fn deep_view(&self) -> MetadataV {
        self@
    }
}

impl Clone for Metadata {
    fn clone(&self) -> (r: Metadata)
        ensures
            r@ == self@,
    {
        Metadata { key: self.key.clone(), value: self.value.clone() }
    }
}

impl Metadata {
    /// Builds a pair from string slices.
    pub fn new(key: &str, value: &str) -> (r: Metadata)
        ensures
            r@.key == key@,
            r@.value == value@,
    {
        Metadata { key: key.to_owned(), value: value.to_owned() }
    }
}

/// Copies a metadata list; the copy has the same view.
pub fn clone_metadatas(v: &Vec<Metadata>) -> (r: Vec<Metadata>)
    ensures
        r.deep_view() == v.deep_view(),
{
    let mut r: Vec<Metadata> = Vec::new();
    let mut i: usize = 0;
    while i < v.len()
        invariant
            i <= v@.len(),
            r.deep_view() =~~= v.deep_view().take(i as int),
        decreases v@.len() - i,
    {
        let ghost prev = r.deep_view();
        proof {
            assert(prev.len() == i as int);
            assert(r@.len() == i as int);
        }
        r.push(v[i].clone());
        proof {
            assert(r@.len() == i + 1);
            assert forall|j: int| 0 <= j < i + 1 implies r.deep_view()[j] == v.deep_view().take(
                i + 1,
            )[j] by {
                if j < i {
                    assert(r.deep_view()[j] == prev[j]);
                } else {
                    assert(r@[j]@ == v@[i as int]@);
                }
            }
            assert(r.deep_view() =~~= v.deep_view().take(i + 1));
        }
        i = i + 1;
    }
    assert(r.deep_view() =~~= v.deep_view());
    r
}

/// Copies an optional metadata list; the copy has the same view.
pub fn clone_opt_metadatas(v: &Option<Vec<Metadata>>) -> (r: Option<Vec<Metadata>>)
    ensures
        r.deep_view() == v.deep_view(),
{
    match v {
        Some(m) => Some(clone_metadatas(m)),
        None => None,
    }
}

/// Copies an optional string; the copy has the same view.
pub fn clone_opt_string(v: &Option<String>) -> (r: Option<String>)
    ensures
        r.deep_view() == v.deep_view(),
{
    match v {
        Some(s) => Some(s.clone()),
        None => None,
    }
}

/// Copies an optional identifier; the copy has the same view.
pub fn clone_opt_id(v: &Option<Id>) -> (r: Option<Id>)
    ensures
        r.deep_view() == v.deep_view(),
{
    match v {
        Some(id) => Some(id.clone()),
        None => None,
    }
}

/// Copies an identifier list; the copy has the same view.
pub fn clone_ids(v: &Vec<Id>) -> (r: Vec<Id>)
    ensures
        r.deep_view() == v.deep_view(),
{
    let mut r: Vec<Id> = Vec::new();
    let mut i: usize = 0;
    while i < v.len()
        invariant
            i <= v@.len(),
            r.deep_view() =~~= v.deep_view().take(i as int),
        decreases v@.len() - i,
    {
        let ghost prev = r.deep_view();
        proof {
            assert(prev.len() == i as int);
            assert(r@.len() == i as int);
        }
        r.push(v[i].clone());
        proof {
            assert(r@.len() == i + 1);
            assert forall|j: int| 0 <= j < i + 1 implies r.deep_view()[j] == v.deep_view().take(
                i + 1,
            )[j] by {
                if j < i {
                    assert(r.deep_view()[j] == prev[j]);
                } else {
                    assert(r@[j]@ == v@[i as int]@);
                }
            }
            assert(r.deep_view() =~~= v.deep_view().take(i + 1));
        }
        i = i + 1;
    }
    assert(r.deep_view() =~~= v.deep_view());
    r
}

/// Whether an identifier list contains an identifier, by value.
pub open spec fn ids_contain(s: Seq<Seq<u8>>, id: Seq<u8>) -> bool {
    exists|i: int| 0 <= i < s.len() && s[i] == id
}

/// Membership test on an identifier list.
pub fn ids_contains(v: &Vec<Id>, id: &Id) -> (r: bool)
    ensures
        r == ids_contain(v.deep_view(), id@),
{
    let mut i: usize = 0;
    while i < v.len()
        invariant
            i <= v@.len(),
            forall|j: int| 0 <= j < i ==> v.deep_view()[j] != id@,
        decreases v@.len() - i,
    {
        if v[i] == *id {
            assert(v.deep_view()[i as int] == id@);
            return true;
        }
        i = i + 1;
    }
    false
}

/// An organization: the key-owning principal under which products and
/// resellers are registered. Its secret signing key is held hex-encoded;
/// all signing for entities under the organization uses this one key.
pub struct Organization {
    pub id: Id,
    pub name: String,
    pub description: String,
    pub private_key: String,
    pub metadata: Vec<Metadata>,
    pub created_at: u64,
    pub created_by: Id,
    pub updated_at: u64,
    pub updated_by: Id,
}

/// Ghost view of [`Organization`].
#[verifier::ext_equal]
pub ghost struct OrganizationV {
    pub id: Seq<u8>,
    pub name: Seq<char>,
    pub description: Seq<char>,
    pub private_key: Seq<char>,
    pub metadata: Seq<MetadataV>,
    pub created_at: u64,
    pub created_by: Seq<u8>,
    pub updated_at: u64,
    pub updated_by: Seq<u8>,
}

impl View for Organization {
    type V = OrganizationV;

    open spec fn view(&self) -> OrganizationV {
        OrganizationV {
            id: self.id@,
            name: self.name@,
            description: self.description@,
            private_key: self.private_key@,
            metadata: self.metadata.deep_view(),
            created_at: self.created_at,
            created_by: self.created_by@,
            updated_at: self.updated_at,
            updated_by: self.updated_by@,
        }
    }
}

impl DeepView for Organization {
    type V = OrganizationV;

    open spec fn deep_view(&self) -> OrganizationV {
        self@
    }
}

impl Clone for Organization {
    fn clone(&self) -> (r: Organization)
        ensures
            r@ == self@,
    {
        let r = Organization {
            id: self.id.clone(),
            name: self.name.clone(),
            description: self.description.clone(),
            private_key: self.private_key.clone(),
            metadata: clone_metadatas(&self.metadata),
            created_at: self.created_at,
            created_by: self.created_by.clone(),
            updated_at: self.updated_at,
            updated_by: self.updated_by.clone(),
        };
        assert(r@ =~= self@);
        r
    }
}

/// The public face of an organization: everything but the secret key.
pub struct OrganizationPublic {
    pub id: Id,
    pub name: String,
    pub description: String,
    pub metadata: Vec<Metadata>,
    pub created_at: u64,
    pub created_by: Id,
    pub updated_at: u64,
    pub updated_by: Id,
}

/// Ghost view of [`OrganizationPublic`].
#[verifier::ext_equal]
pub ghost struct OrganizationPublicV {
    pub id: Seq<u8>,
    pub name: Seq<char>,
    pub description: Seq<char>,
    pub metadata: Seq<MetadataV>,
    pub created_at: u64,
    pub created_by: Seq<u8>,
    pub updated_at: u64,
    pub updated_by: Seq<u8>,
}

impl View for OrganizationPublic {
    type V = OrganizationPublicV;

    open spec fn view(&self) -> OrganizationPublicV {
        OrganizationPublicV {
            id: self.id@,
            name: self.name@,
            description: self.description@,
            metadata: self.metadata.deep_view(),
            created_at: self.created_at,
            created_by: self.created_by@,
            updated_at: self.updated_at,
            updated_by: self.updated_by@,
        }
    }
}

impl DeepView for OrganizationPublic {
    type V = OrganizationPublicV;

    open spec fn deep_view(&self) -> OrganizationPublicV {
        self@
    }
}

/// The public view an organization record projects to.
pub open spec fn org_public_of(o: OrganizationV) -> OrganizationPublicV {
    OrganizationPublicV {
        id: o.id,
        name: o.name,
        description: o.description,
        metadata: o.metadata,
        created_at: o.created_at,
        created_by: o.created_by,
        updated_at: o.updated_at,
        updated_by: o.updated_by,
    }
}

impl OrganizationPublic {
    /// Projects an organization to its public face, dropping the secret key.
    pub fn from(org: Organization) -> (r: OrganizationPublic)
        ensures
            r@ == org_public_of(org@),
    {
        let r = OrganizationPublic {
            id: org.id,
            name: org.name,
            description: org.description,
            metadata: org.metadata,
            created_at: org.created_at,
            created_by: org.created_by,
            updated_at: org.updated_at,
            updated_by: org.updated_by,
        };
        assert(r@ =~= org_public_of(org@));
        r
    }
}

/// Creation/update payload for an organization.
pub struct OrganizationInput {
    pub name: String,
    pub description: String,
    pub metadata: Vec<Metadata>,
}

/// Outcome of asking for an organization.
pub enum OrganizationResult {
    Organization(OrganizationPublic),
    Error(ApiError),
}

/// Outcome of asking for an organization's secret key.
pub enum PrivateKeyResult {
    Key(String),
    Error(ApiError),
}

/// A product registered under an organization; `public_key` (hex SEC1) is
/// the verification key for this product's codes, fixed at creation.
pub struct Product {
    pub id: Id,
    pub name: String,
    pub org_id: Id,
    pub category: String,
    pub description: String,
    pub metadata: Vec<Metadata>,
    pub public_key: String,
    pub created_at: u64,
    pub created_by: Id,
    pub updated_at: u64,
    pub updated_by: Id,
}

/// Ghost view of [`Product`].
#[verifier::ext_equal]
pub ghost struct ProductV {
    pub id: Seq<u8>,
    pub name: Seq<char>,
    pub org_id: Seq<u8>,
    pub category: Seq<char>,
    pub description: Seq<char>,
    pub metadata: Seq<MetadataV>,
    pub public_key: Seq<char>,
    pub created_at: u64,
    pub created_by: Seq<u8>,
    pub updated_at: u64,
    pub updated_by: Seq<u8>,
}

impl View for Product {
    type V = ProductV;

    open spec fn view(&self) -> ProductV {
        ProductV {
            id: self.id@,
            name: self.name@,
            org_id: self.org_id@,
            category: self.category@,
            description: self.description@,
            metadata: self.metadata.deep_view(),
            public_key: self.public_key@,
            created_at: self.created_at,
            created_by: self.created_by@,
            updated_at: self.updated_at,
            updated_by: self.updated_by@,
        }
    }
}

impl DeepView for Product {
    type V = ProductV;

    open spec fn deep_view(&self) -> ProductV {
        self@
    }
}

impl Clone for Product {
    fn clone(&self) -> (r: Product)
        ensures
            r@ == self@,
    {
        let r = Product {
            id: self.id.clone(),
            name: self.name.clone(),
            org_id: self.org_id.clone(),
            category: self.category.clone(),
            description: self.description.clone(),
            metadata: clone_metadatas(&self.metadata),
            public_key: self.public_key.clone(),
            created_at: self.created_at,
            created_by: self.created_by.clone(),
            updated_at: self.updated_at,
            updated_by: self.updated_by.clone(),
        };
        assert(r@ =~= self@);
        r
    }
}

/// Creation/update payload for a product.
pub struct ProductInput {
    pub name: String,
    pub org_id: Id,
    pub category: String,
    pub description: String,
    pub metadata: Vec<Metadata>,
}

/// Outcome of asking for a product.
pub enum ProductResult {
    Product(Product),
    Missing,
    Error(ApiError),
}

/// A serial number minted under a product. `print_version` starts at 0 and
/// is bumped by exactly one on each print (saturating); only the code signed
/// for the stored version verifies.
pub struct ProductSerialNumber {
    pub product_id: Id,
    pub serial_no: Id,
    pub print_version: u8,
    pub metadata: Vec<Metadata>,
    pub created_at: u64,
    pub created_by: Id,
    pub updated_at: u64,
    pub updated_by: Id,
}

/// Ghost view of [`ProductSerialNumber`].
#[verifier::ext_equal]
pub ghost struct ProductSerialNumberV {
    pub product_id: Seq<u8>,
    pub serial_no: Seq<u8>,
    pub print_version: u8,
    pub metadata: Seq<MetadataV>,
    pub created_at: u64,
    pub created_by: Seq<u8>,
    pub updated_at: u64,
    pub updated_by: Seq<u8>,
}

impl View for ProductSerialNumber {
    type V = ProductSerialNumberV;

    open spec fn view(&self) -> ProductSerialNumberV {
        ProductSerialNumberV {
            product_id: self.product_id@,
            serial_no: self.serial_no@,
            print_version: self.print_version,
            metadata: self.metadata.deep_view(),
            created_at: self.created_at,
            created_by: self.created_by@,
            updated_at: self.updated_at,
            updated_by: self.updated_by@,
        }
    }
}

impl DeepView for ProductSerialNumber {
    type V = ProductSerialNumberV;

    open spec fn deep_view(&self) -> ProductSerialNumberV {
        self@
    }
}

impl Clone for ProductSerialNumber {
    fn clone(&self) -> (r: ProductSerialNumber)
        ensures
            r@ == self@,
    {
        let r = ProductSerialNumber {
            product_id: self.product_id.clone(),
            serial_no: self.serial_no.clone(),
            print_version: self.print_version,
            metadata: clone_metadatas(&self.metadata),
            created_at: self.created_at,
            created_by: self.created_by.clone(),
            updated_at: self.updated_at,
            updated_by: self.updated_by.clone(),
        };
        assert(r@ =~= self@);
        r
    }
}

/// How a successful check is classified, or that it failed.
#[derive(Clone, Copy, PartialEq, Eq, Structural, Debug)]
pub enum ProductVerificationStatus {
    FirstVerification,
    MultipleVerification,
    Invalid,
}

/// A recorded verification. Appended, never removed; only the claim fields
/// (`reward_claimed`, monotonic false-to-true, and `reward_transaction_id`,
/// set once) ever change afterwards.
pub struct ProductVerification {
    pub id: Id,
    pub product_id: Id,
    pub serial_no: Id,
    pub print_version: u8,
    pub metadata: Vec<Metadata>,
    pub created_at: u64,
    pub created_by: Id,
    pub status: ProductVerificationStatus,
    pub reward_claimed: bool,
    pub reward_transaction_id: Option<String>,
}

/// Ghost view of [`ProductVerification`].
#[verifier::ext_equal]
pub ghost struct ProductVerificationV {
    pub id: Seq<u8>,
    pub product_id: Seq<u8>,
    pub serial_no: Seq<u8>,
    pub print_version: u8,
    pub metadata: Seq<MetadataV>,
    pub created_at: u64,
    pub created_by: Seq<u8>,
    pub status: ProductVerificationStatus,
    pub reward_claimed: bool,
    pub reward_transaction_id: Option<Seq<char>>,
}

impl View for ProductVerification {
    type V = ProductVerificationV;

    open spec fn view(&self) -> ProductVerificationV {
        ProductVerificationV {
            id: self.id@,
            product_id: self.product_id@,
            serial_no: self.serial_no@,
            print_version: self.print_version,
            metadata: self.metadata.deep_view(),
            created_at: self.created_at,
            created_by: self.created_by@,
            status: self.status,
            reward_claimed: self.reward_claimed,
            reward_transaction_id: self.reward_transaction_id.deep_view(),
        }
    }
}

impl DeepView for ProductVerification {
    type V = ProductVerificationV;

    open spec fn deep_view(&self) -> ProductVerificationV {
        self@
    }
}

impl Clone for ProductVerification {
    fn clone(&self) -> (r: ProductVerification)
        ensures
            r@ == self@,
    {
        let r = ProductVerification {
            id: self.id.clone(),
            product_id: self.product_id.clone(),
            serial_no: self.serial_no.clone(),
            print_version: self.print_version,
            metadata: clone_metadatas(&self.metadata),
            created_at: self.created_at,
            created_by: self.created_by.clone(),
            status: self.status,
            reward_claimed: self.reward_claimed,
            reward_transaction_id: clone_opt_string(&self.reward_transaction_id),
        };
        assert(r@ =~= self@);
        r
    }
}

/// Outcome of a verification request.
pub enum ProductVerificationResult {
    Status(ProductVerificationStatus),
    Error(ApiError),
}

/// Outcome of a reseller check in the legacy flow.
#[derive(Clone, Copy, PartialEq, Eq, Structural, Debug)]
pub enum VerificationStatus {
    Success,
    Invalid,
}

/// Outcome of minting a serial number.
pub enum ProductSerialNumberResult {
    Record(ProductSerialNumber),
    Error(ApiError),
}

/// What a print run hands back: the single-use code and the version it is
/// bound to.
pub struct ProductUniqueCodeResultRecord {
    pub unique_code: String,
    pub print_version: u8,
    pub product_id: Id,
    pub serial_no: Id,
    pub created_at: u64,
}

/// Outcome of a print run.
pub enum ProductUniqueCodeResult {
    Record(ProductUniqueCodeResultRecord),
    Error(ApiError),
}

/// Outcome of generating a reseller code in the legacy flow.
pub enum UniqueCodeResult {
    UniqueCode(String),
    Error(ApiError),
}

/// Copies a serial-number list; the copy has the same view.
pub fn clone_serials(v: &Vec<ProductSerialNumber>) -> (r: Vec<ProductSerialNumber>)
    ensures
        r.deep_view() == v.deep_view(),
        r@.len() == v@.len(),
{
    let mut r: Vec<ProductSerialNumber> = Vec::new();
    let mut i: usize = 0;
    while i < v.len()
        invariant
            i <= v@.len(),
            r@.len() == i,
            r.deep_view() =~~= v.deep_view().take(i as int),
        decreases v@.len() - i,
    {
        let ghost prev = r.deep_view();
        proof {
            assert(prev.len() == i as int);
        }
        r.push(v[i].clone());
        proof {
            assert forall|j: int| 0 <= j < i + 1 implies r.deep_view()[j] == v.deep_view().take(
                i + 1,
            )[j] by {
                if j < i {
                    assert(r.deep_view()[j] == prev[j]);
                } else {
                    assert(r@[j]@ == v@[i as int]@);
                }
            }
            assert(r.deep_view() =~~= v.deep_view().take(i + 1));
        }
        i = i + 1;
    }
    assert(r.deep_view() =~~= v.deep_view());
    r
}

/// Copies a verification list; the copy has the same view.
pub fn clone_verifications(v: &Vec<ProductVerification>) -> (r: Vec<ProductVerification>)
    ensures
        r.deep_view() == v.deep_view(),
        r@.len() == v@.len(),
{
    let mut r: Vec<ProductVerification> = Vec::new();
    let mut i: usize = 0;
    while i < v.len()
        invariant
            i <= v@.len(),
            r@.len() == i,
            r.deep_view() =~~= v.deep_view().take(i as int),
        decreases v@.len() - i,
    {
        let ghost prev = r.deep_view();
        proof {
            assert(prev.len() == i as int);
        }
        r.push(v[i].clone());
        proof {
            assert forall|j: int| 0 <= j < i + 1 implies r.deep_view()[j] == v.deep_view().take(
                i + 1,
            )[j] by {
                if j < i {
                    assert(r.deep_view()[j] == prev[j]);
                } else {
                    assert(r@[j]@ == v@[i as int]@);
                }
            }
            assert(r.deep_view() =~~= v.deep_view().take(i + 1));
        }
        i = i + 1;
    }
    assert(r.deep_view() =~~= v.deep_view());
    r
}

/// The roles an account can hold.
#[derive(Clone, Copy, PartialEq, Eq, Structural, Debug)]
pub enum UserRole {
    Admin,
    BrandOwner,
    Reseller,
}

/// A registered account, possibly tied to organizations and session keys.
pub struct User {
    pub id: Id,
    pub user_role: Option<UserRole>,
    pub is_principal: bool,
    pub is_enabled: bool,
    pub org_ids: Vec<Id>,
    pub active_org_id: Option<Id>,
    pub first_name: Option<String>,
    pub last_name: Option<String>,
    pub phone_no: Option<String>,
    pub email: Option<String>,
    pub detail_meta: Vec<Metadata>,
    pub session_keys: Vec<Id>,
    pub created_at: u64,
    pub created_by: Id,
    pub updated_at: u64,
    pub updated_by: Id,
}

/// Ghost view of [`User`].
#[verifier::ext_equal]
pub ghost struct UserV {
    pub id: Seq<u8>,
    pub user_role: Option<UserRole>,
    pub is_principal: bool,
    pub is_enabled: bool,
    pub org_ids: Seq<Seq<u8>>,
    pub active_org_id: Option<Seq<u8>>,
    pub first_name: Option<Seq<char>>,
    pub last_name: Option<Seq<char>>,
    pub phone_no: Option<Seq<char>>,
    pub email: Option<Seq<char>>,
    pub detail_meta: Seq<MetadataV>,
    pub session_keys: Seq<Seq<u8>>,
    pub created_at: u64,
    pub created_by: Seq<u8>,
    pub updated_at: u64,
    pub updated_by: Seq<u8>,
}

impl View for User {
    type V = UserV;

    open spec fn view(&self) -> UserV {
        UserV {
            id: self.id@,
            user_role: self.user_role,
            is_principal: self.is_principal,
            is_enabled: self.is_enabled,
            org_ids: self.org_ids.deep_view(),
            active_org_id: self.active_org_id.deep_view(),
            first_name: self.first_name.deep_view(),
            last_name: self.last_name.deep_view(),
            phone_no: self.phone_no.deep_view(),
            email: self.email.deep_view(),
            detail_meta: self.detail_meta.deep_view(),
            session_keys: self.session_keys.deep_view(),
            created_at: self.created_at,
            created_by: self.created_by@,
            updated_at: self.updated_at,
            updated_by: self.updated_by@,
        }
    }
}

impl DeepView for User {
    type V = UserV;

    open spec fn deep_view(&self) -> UserV {
        self@
    }
}

impl Clone for User {
    fn clone(&self) -> (r: User)
        ensures
            r@ == self@,
    {
        let r = User {
            id: self.id.clone(),
            user_role: self.user_role,
            is_principal: self.is_principal,
            is_enabled: self.is_enabled,
            org_ids: clone_ids(&self.org_ids),
            active_org_id: clone_opt_id(&self.active_org_id),
            first_name: clone_opt_string(&self.first_name),
            last_name: clone_opt_string(&self.last_name),
            phone_no: clone_opt_string(&self.phone_no),
            email: clone_opt_string(&self.email),
            detail_meta: clone_metadatas(&self.detail_meta),
            session_keys: clone_ids(&self.session_keys),
            created_at: self.created_at,
            created_by: self.created_by.clone(),
            updated_at: self.updated_at,
            updated_by: self.updated_by.clone(),
        };
        assert(r@ =~= self@);
        r
    }
}

/// Profile details supplied by or for a user.
pub struct UserDetailsInput {
    pub first_name: String,
    pub last_name: String,
    pub phone_no: String,
    pub email: String,
    pub detail_meta: Vec<Metadata>,
}

/// Outcome of asking for or changing a user.
pub enum UserResult {
    User(User),
    Missing,
    Error(ApiError),
}

/// A reseller registered under an organization; `public_key` mirrors the
/// organization's verification key.
pub struct Reseller {
    pub id: Id,
    pub user_id: Id,
    pub org_id: Id,
    pub name: String,
    pub contact_email: Option<String>,
    pub contact_phone: Option<String>,
    pub ecommerce_urls: Vec<Metadata>,
    pub additional_metadata: Option<Vec<Metadata>>,
    pub is_verified: bool,
    pub certification_code: Option<String>,
    pub certification_timestamp: Option<u64>,
    pub date_joined: u64,
    pub metadata: Vec<Metadata>,
    pub public_key: String,
    pub created_at: u64,
    pub created_by: Id,
    pub updated_at: u64,
    pub updated_by: Id,
}

/// Ghost view of [`Reseller`].
#[verifier::ext_equal]
pub ghost struct ResellerV {
    pub id: Seq<u8>,
    pub user_id: Seq<u8>,
    pub org_id: Seq<u8>,
    pub name: Seq<char>,
    pub contact_email: Option<Seq<char>>,
    pub contact_phone: Option<Seq<char>>,
    pub ecommerce_urls: Seq<MetadataV>,
    pub additional_metadata: Option<Seq<MetadataV>>,
    pub is_verified: bool,
    pub certification_code: Option<Seq<char>>,
    pub certification_timestamp: Option<u64>,
    pub date_joined: u64,
    pub metadata: Seq<MetadataV>,
    pub public_key: Seq<char>,
    pub created_at: u64,
    pub created_by: Seq<u8>,
    pub updated_at: u64,
    pub updated_by: Seq<u8>,
}

impl View for Reseller {
    type V = ResellerV;

    open spec fn view(&self) -> ResellerV {
        ResellerV {
            id: self.id@,
            user_id: self.user_id@,
            org_id: self.org_id@,
            name: self.name@,
            contact_email: self.contact_email.deep_view(),
            contact_phone: self.contact_phone.deep_view(),
            ecommerce_urls: self.ecommerce_urls.deep_view(),
            additional_metadata: self.additional_metadata.deep_view(),
            is_verified: self.is_verified,
            certification_code: self.certification_code.deep_view(),
            certification_timestamp: self.certification_timestamp,
            date_joined: self.date_joined,
            metadata: self.metadata.deep_view(),
            public_key: self.public_key@,
            created_at: self.created_at,
            created_by: self.created_by@,
            updated_at: self.updated_at,
            updated_by: self.updated_by@,
        }
    }
}

impl DeepView for Reseller {
    type V = ResellerV;

    open spec fn deep_view(&self) -> ResellerV {
        self@
    }
}

impl Clone for Reseller {
    fn clone(&self) -> (r: Reseller)
        ensures
            r@ == self@,
    {
        let r = Reseller {
            id: self.id.clone(),
            user_id: self.user_id.clone(),
            org_id: self.org_id.clone(),
            name: self.name.clone(),
            contact_email: clone_opt_string(&self.contact_email),
            contact_phone: clone_opt_string(&self.contact_phone),
            ecommerce_urls: clone_metadatas(&self.ecommerce_urls),
            additional_metadata: clone_opt_metadatas(&self.additional_metadata),
            is_verified: self.is_verified,
            certification_code: clone_opt_string(&self.certification_code),
            certification_timestamp: self.certification_timestamp,
            date_joined: self.date_joined,
            metadata: clone_metadatas(&self.metadata),
            public_key: self.public_key.clone(),
            created_at: self.created_at,
            created_by: self.created_by.clone(),
            updated_at: self.updated_at,
            updated_by: self.updated_by.clone(),
        };
        assert(r@ =~= self@);
        r
    }
}

/// Registration payload for a reseller.
pub struct ResellerInput {
    pub org_id: Id,
    pub name: String,
    pub metadata: Vec<Metadata>,
    pub ecommerce_urls: Vec<Metadata>,
}

/// The public face of a user.
pub struct UserPublic {
    pub id: Id,
    pub first_name: Option<String>,
    pub last_name: Option<String>,
    pub email: Option<String>,
    pub created_at: u64,
}

/// Brand-owner context: which organizations the user owns and which is
/// active.
pub struct BrandOwnerContextDetails {
    pub has_organizations: bool,
    pub organizations: Option<Vec<OrganizationPublic>>,
    pub active_organization: Option<OrganizationPublic>,
}

/// Reseller context: profile completeness and certification facts.
pub struct ResellerContextDetails {
    pub is_profile_complete_and_verified: bool,
    pub associated_organization: Option<OrganizationPublic>,
    pub certification_code: Option<String>,
    pub certification_timestamp: Option<u64>,
}

/// Everything a client needs to render the session after sign-in.
pub struct AuthContextResponse {
    pub user: Option<UserPublic>,
    pub is_registered: bool,
    pub role: Option<UserRole>,
    pub brand_owner_details: Option<BrandOwnerContextDetails>,
    pub reseller_details: Option<ResellerContextDetails>,
}

/// Acknowledgement of a sign-out.
pub struct LogoutResponse {
    pub message: String,
    pub redirect_url: Option<String>,
}

/// Payload for creating an organization while establishing owner context.
pub struct CreateOrganizationWithOwnerContextRequest {
    pub name: String,
    pub description: String,
    pub metadata: Vec<Metadata>,
}

/// An organization together with the caller's refreshed auth context.
pub struct OrganizationContextResponse {
    pub organization: OrganizationPublic,
    pub user_auth_context: AuthContextResponse,
}

/// The public face of a reseller.
pub struct ResellerPublic {
    pub id: Id,
    pub user_id: Id,
    pub organization_id: Id,
    pub name: String,
    pub contact_email: Option<String>,
    pub contact_phone: Option<String>,
    pub ecommerce_urls: Vec<Metadata>,
    pub additional_metadata: Option<Vec<Metadata>>,
    pub is_verified: bool,
    pub public_key: String,
    pub certification_code: Option<String>,
    pub certification_timestamp: Option<u64>,
    pub created_at: u64,
    pub updated_at: u64,
}

/// Payload completing a reseller profile against a target organization.
pub struct CompleteResellerProfileRequest {
    pub target_organization_id: Id,
    pub reseller_name: String,
    pub contact_email: Option<String>,
    pub contact_phone: Option<String>,
    pub ecommerce_urls: Vec<Metadata>,
    pub additional_metadata: Option<Vec<Metadata>>,
}

/// Everything the certification page shows a verified reseller.
pub struct ResellerCertificationPageContext {
    pub reseller_profile: ResellerPublic,
    pub associated_organization: OrganizationPublic,
    pub certification_code: String,
    pub certification_timestamp: u64,
    pub user_details: UserPublic,
}

/// What the navigation bar shows for the signed-in user.
pub struct NavigationContextResponse {
    pub user_display_name: String,
    pub user_avatar_id: Option<String>,
    pub current_organization_name: Option<String>,
}

} // verus!
