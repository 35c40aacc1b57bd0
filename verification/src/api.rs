//! Request and response shapes of the public operations, the generic
//! response envelope, and pagination.

use vstd::prelude::*;

verus! {

use crate::errors::ApiError;
use crate::ids::Id;
use crate::model::Metadata;
use crate::model::OrganizationPublic;
use crate::model::ProductVerification;
use crate::model::ProductVerificationStatus;
use crate::model::Product;
use crate::model::Reseller;
use crate::model::User;

/// Envelope metadata stamped on every response. The clock is the caller's
/// concern; a zero timestamp means "unstamped".
pub struct ResponseMetadata {
    pub timestamp: u64,
    pub version: String,
    pub request_id: Option<String>,
}

impl ResponseMetadata {
    /// An unstamped envelope tag.
    pub fn fresh() -> (r: ResponseMetadata)
        ensures
            r.timestamp == 0,
    {
        ResponseMetadata { timestamp: 0, version: String::new(), request_id: None }
    }
}

/// Which page of a listing is wanted.
pub struct PaginationRequest {
    pub page: Option<u32>,
    pub limit: Option<u32>,
}

/// The page of a listing that was returned.
pub struct PaginationResponse {
    pub page: u32,
    pub limit: u32,
    pub total: u64,
    pub has_more: bool,
}

/// The page number a request asks for (1 when unspecified).
pub open spec fn page_of(r: PaginationRequest) -> u32 {
    match r.page {
        Some(p) => p,
        None => 1,
    }
}

/// The page size a request asks for (10 when unspecified).
pub open spec fn limit_of(r: PaginationRequest) -> u32 {
    match r.limit {
        Some(l) => l,
        None => 10,
    }
}

impl PaginationRequest {
    /// First page, ten items.
    pub fn first_page() -> (r: PaginationRequest)
        ensures
            page_of(r) == 1,
            limit_of(r) == 10,
    {
        PaginationRequest { page: Some(1), limit: Some(10) }
    }
}

/// Either a payload or an error, with envelope metadata.
pub struct ApiResponse<T> {
    pub data: Option<T>,
    pub error: Option<ApiError>,
    pub metadata: ResponseMetadata,
}

impl<T> ApiResponse<T> {
    /// A successful response carrying a payload.
    pub fn success(data: T) -> (r: ApiResponse<T>)
        ensures
            r.data == Some(data),
            r.error is None,
    {
        ApiResponse { data: Some(data), error: None, metadata: ResponseMetadata::fresh() }
    }

    /// A failed response carrying an error.
    pub fn error(error: ApiError) -> (r: ApiResponse<T>)
        ensures
            r.data is None,
            r.error == Some(error),
    {
        ApiResponse { data: None, error: Some(error), metadata: ResponseMetadata::fresh() }
    }
}

/// The slice of `items` that page `page` (of size `limit`) covers.
pub open spec fn page_slice<T>(items: Seq<T>, page: u32, limit: u32) -> Seq<T> {
    let start = (page - 1) * limit;
    let end = page * limit;
    if start >= items.len() {
        Seq::empty()
    } else if end <= items.len() {
        items.subrange(start as int, end as int)
    } else {
        items.subrange(start as int, items.len() as int)
    }
}

/// For a genuine page number, the page's start does not precede the
/// listing and the page's end is one page width further on.
proof fn lemma_page_bounds(page: u32, limit: u32)
    requires
        page >= 1,
    ensures
        0 <= (page - 1) * limit,
        (page as int) * (limit as int) == (page - 1) * (limit as int) + (limit as int),
{
    vstd::arithmetic::mul::lemma_mul_nonnegative(page - 1, limit as int);
    assert((page as int) * (limit as int) == (page - 1) * (limit as int) + (limit as int))
        by (nonlinear_arith);
}

/// Two equally long listings cut pages of equal length.
pub proof fn lemma_page_slice_len_eq<T, U>(a: Seq<T>, b: Seq<U>, page: u32, limit: u32)
    requires
        page >= 1,
        a.len() == b.len(),
    ensures
        page_slice(a, page, limit).len() == page_slice(b, page, limit).len(),
{
    lemma_page_bounds(page, limit);
}

/// A page's elements come from the listing at the page's offset.
pub proof fn lemma_page_slice_index<T>(a: Seq<T>, page: u32, limit: u32, j: int)
    requires
        page >= 1,
        0 <= j < page_slice(a, page, limit).len(),
    ensures
        0 <= (page - 1) * limit + j < a.len(),
        page_slice(a, page, limit)[j] == a[(page - 1) * limit + j],
{
    lemma_page_bounds(page, limit);
}

/// Cuts one page out of a listing and reports its position.
pub fn paginate<T>(items: Vec<T>, request: &PaginationRequest) -> (r: (
    Vec<T>,
    PaginationResponse,
))
    requires
        page_of(*request) >= 1,
    ensures
        r.0@ == page_slice(items@, page_of(*request), limit_of(*request)),
        r.0@.len() <= items@.len(),
        forall|j: int|
            0 <= j < r.0@.len() ==> (page_of(*request) - 1) * (limit_of(*request) as int) + j
                < items@.len() && r.0@[j] == items@[(page_of(*request) - 1) * (limit_of(
                *request,
            ) as int) + j],
        r.1.page == page_of(*request),
        r.1.limit == limit_of(*request),
        r.1.total == items@.len(),
        r.1.has_more == ((page_of(*request) as int) * (limit_of(*request) as int)
            < items@.len()),
{
    let ghost orig = items@;
    let page: u32 = match request.page {
        Some(p) => p,
        None => 1,
    };
    let limit: u32 = match request.limit {
        Some(l) => l,
        None => 10,
    };
    proof {
        vstd::arithmetic::mul::lemma_mul_upper_bound(
            page - 1,
            u32::MAX as int,
            limit as int,
            u32::MAX as int,
        );
        vstd::arithmetic::mul::lemma_mul_upper_bound(
            page as int,
            u32::MAX as int,
            limit as int,
            u32::MAX as int,
        );
        vstd::arithmetic::mul::lemma_mul_inequality(page - 1, page as int, limit as int);
    }
    let start: u64 = ((page - 1) as u64) * (limit as u64);
    let end: u64 = (page as u64) * (limit as u64);
    let total: u64 = items.len() as u64;
    let pagination = PaginationResponse { page, limit, total, has_more: end < total };

    let mut v = items;
    if start >= total {
        v.clear();
        assert(v@ =~= page_slice(orig, page, limit));
        return (v, pagination);
    }
    let ghost endc: int = if (end as int) < orig.len() as int {
        end as int
    } else {
        orig.len() as int
    };
    if end < total {
        v.truncate(end as usize);
    }
    assert(v@ =~= orig.subrange(0, endc));
    let keep: usize = start as usize;
    let mut skipped: usize = 0;
    while skipped < keep
        invariant
            skipped <= keep,
            keep <= endc,
            endc <= orig.len(),
            v@ == orig.subrange(skipped as int, endc),
        decreases keep - skipped,
    {
        let _ = v.remove(0);
        skipped = skipped + 1;
        assert(v@ =~= orig.subrange(skipped as int, endc));
    }
    assert(v@ =~= page_slice(orig, page, limit));
    (v, pagination)
}

/// Points and promotion attached to a successful verification.
pub struct VerificationRewards {
    pub points: u32,
    pub is_first_verification: bool,
    pub special_reward: Option<String>,
    pub reward_description: Option<String>,
}

/// Remaining budget of a rate-limit window.
pub struct RateLimitInfo {
    pub remaining_attempts: u32,
    pub reset_time: u64,
    pub current_window_start: u64,
}

/// Registration payload for a user.
pub struct RegisterUserRequest {
    pub first_name: Option<String>,
    pub last_name: Option<String>,
    pub email: Option<String>,
    pub phone_no: Option<String>,
}

/// Outcome of checking a reseller code. The set is closed: no other
/// outcome is permitted.
#[derive(Clone, Copy, PartialEq, Eq, Structural, Debug)]
pub enum ResellerVerificationStatus {
    Success,
    InvalidCode,
    ExpiredCode,
    ReplayAttackDetected,
    ResellerNotFound,
    OrganizationNotFound,
    InternalError,
}

/// Acknowledgement of an administrative storage reset.
pub struct ResetStorageResponse {
    pub message: String,
}

/// Payload for creating an organization.
pub struct CreateOrganizationRequest {
    pub name: String,
    pub description: String,
    pub metadata: Vec<Metadata>,
}

/// Payload for updating an organization.
pub struct UpdateOrganizationRequest {
    pub id: Id,
    pub name: String,
    pub description: String,
    pub metadata: Vec<Metadata>,
}

/// Name filter and page for listing organizations.
pub struct FindOrganizationsRequest {
    pub name: String,
    pub pagination: Option<PaginationRequest>,
}

/// One organization, wrapped.
pub struct OrganizationResponse {
    pub organization: OrganizationPublic,
}

/// A page of organizations.
pub struct OrganizationsListResponse {
    pub organizations: Vec<OrganizationPublic>,
    pub pagination: Option<PaginationResponse>,
}

/// One product, wrapped.
pub struct ProductResponse {
    pub product: Product,
}

/// One user, wrapped.
pub struct UserResponse {
    pub user: User,
}

/// A verification request: the serial number and the printed code, with
/// the client's claimed version and optional timestamp and nonce.
pub struct VerifyProductEnhancedRequest {
    pub product_id: Id,
    pub serial_no: Id,
    pub print_version: u8,
    pub unique_code: String,
    pub metadata: Vec<Metadata>,
    pub timestamp: Option<u64>,
    pub nonce: Option<String>,
}

/// What a verification reports: the classification, the stored record,
/// the rewards granted, and when the result expires.
pub struct ProductVerificationEnhancedResponse {
    pub status: ProductVerificationStatus,
    pub verification: Option<ProductVerification>,
    pub rewards: Option<VerificationRewards>,
    pub expiration: Option<u64>,
}

/// Payload asking for a reseller code.
pub struct GenerateResellerUniqueCodeRequest {
    pub reseller_id: Id,
    pub context: Option<String>,
}

/// A freshly generated reseller code, bound to its timestamp and context.
pub struct ResellerUniqueCodeResponse {
    pub unique_code: String,
    pub reseller_id: Id,
    pub timestamp: u64,
    pub context: Option<String>,
}

/// Payload asking to check a reseller code.
pub struct VerifyResellerRequest {
    pub reseller_id: Id,
    pub unique_code: String,
    pub timestamp: u64,
    pub context: Option<String>,
}

/// Outcome of checking a reseller code, with the resolved parties.
pub struct ResellerVerificationResponse {
    pub status: ResellerVerificationStatus,
    pub organization: Option<OrganizationPublic>,
    pub reseller: Option<Reseller>,
}

/// One verification of a product under an organization, flattened for
/// listing.
pub struct ProductVerificationDetail {
    pub user_email: Option<String>,
    pub product_id: Id,
    pub product_name: String,
    pub serial_no: Id,
    pub created_at: u64,
    pub status: ProductVerificationStatus,
}

/// Ghost view of [`ProductVerificationDetail`].
#[verifier::ext_equal]
pub ghost struct ProductVerificationDetailV {
    pub user_email: Option<Seq<char>>,
    pub product_id: Seq<u8>,
    pub product_name: Seq<char>,
    pub serial_no: Seq<u8>,
    pub created_at: u64,
    pub status: ProductVerificationStatus,
}

impl View for ProductVerificationDetail {
    type V = ProductVerificationDetailV;

    open spec fn view(&self) -> ProductVerificationDetailV {
        ProductVerificationDetailV {
            user_email: self.user_email.deep_view(),
            product_id: self.product_id@,
            product_name: self.product_name@,
            serial_no: self.serial_no@,
            created_at: self.created_at,
            status: self.status,
        }
    }
}

impl DeepView for ProductVerificationDetail {
    type V = ProductVerificationDetailV;

    open spec fn deep_view(&self) -> ProductVerificationDetailV {
        self@
    }
}

/// Payload asking to redeem the reward of a verification.
pub struct RedeemRewardRequest {
    pub serial_no: Id,
    pub unique_code: String,
    pub wallet_address: String,
}

/// Outcome of a redemption: idempotent claims report `success == false`
/// with the transaction already recorded.
pub struct RedeemRewardResponse {
    pub success: bool,
    pub transaction_id: Option<String>,
    pub message: String,
}

/// Organization-level analytics totals.
pub struct OrganizationAnalyticData {
    pub total_products: u64,
    pub active_resellers: u64,
    pub verifications_this_month: u64,
}

/// Payload asking for organization analytics.
pub struct GetOrganizationAnalyticRequest {
    pub org_id: Id,
}

} // verus!
