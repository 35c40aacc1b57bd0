//! Role-based authorization: the role-to-permission table, caller
//! resolution (directly or through a session key), and the authorization
//! checks the operations run before touching state.

use vstd::prelude::*;

verus! {

use crate::errors::ApiError;
use crate::idmap::IdMap;
use crate::ids::Id;
use crate::model::ids_contain;
use crate::model::ids_contains;
use crate::model::Metadata;
use crate::model::Organization;
use crate::model::User;
use crate::model::UserRole;

/// The rights a role can hold.
#[derive(Clone, Copy, PartialEq, Eq, Structural, Debug)]
pub enum Permission {
    ReadOrganization,
    WriteOrganization,
    ReadProduct,
    WriteProduct,
    ReadUser,
    WriteUser,
    ReadReseller,
    WriteReseller,
    ManageVerifications,
    AdminAccess,
}

/// One audited access, as recorded alongside authorization decisions.
pub struct AuditLogEntry {
    pub user_id: Id,
    pub action: String,
    pub resource_type: String,
    pub resource_id: Id,
    pub timestamp: u64,
    pub metadata: Vec<Metadata>,
    pub success: bool,
}

/// The role-to-permission table: admins hold everything, brand owners
/// everything but admin access, resellers read access and verification
/// management.
pub open spec fn role_has_permission(role: UserRole, p: Permission) -> bool {
    match role {
        UserRole::Admin => true,
        UserRole::BrandOwner => !(p is AdminAccess),
        UserRole::Reseller => p is ReadOrganization || p is ReadProduct || p is ReadReseller
            || p is ManageVerifications,
    }
}

/// The permissions of a role, listed.
pub open spec fn role_permission_seq(role: UserRole) -> Seq<Permission> {
    match role {
        UserRole::Admin => seq![
            Permission::ReadOrganization,
            Permission::WriteOrganization,
            Permission::ReadProduct,
            Permission::WriteProduct,
            Permission::ReadUser,
            Permission::WriteUser,
            Permission::ReadReseller,
            Permission::WriteReseller,
            Permission::ManageVerifications,
            Permission::AdminAccess,
        ],
        UserRole::BrandOwner => seq![
            Permission::ReadOrganization,
            Permission::WriteOrganization,
            Permission::ReadProduct,
            Permission::WriteProduct,
            Permission::ReadUser,
            Permission::WriteUser,
            Permission::ReadReseller,
            Permission::WriteReseller,
            Permission::ManageVerifications,
        ],
        UserRole::Reseller => seq![
            Permission::ReadOrganization,
            Permission::ReadProduct,
            Permission::ReadReseller,
            Permission::ManageVerifications,
        ],
    }
}

/// The permissions a role grants; membership in the result agrees with
/// the role-to-permission table.
pub fn get_role_permissions(role: &UserRole) -> (r: Vec<Permission>)
    ensures
        r@ == role_permission_seq(*role),
        forall|p: Permission| r@.contains(p) <==> role_has_permission(*role, p),
{
    let mut permissions: Vec<Permission> = Vec::new();
    match role {
        UserRole::Admin => {
            permissions.push(Permission::ReadOrganization);
            permissions.push(Permission::WriteOrganization);
            permissions.push(Permission::ReadProduct);
            permissions.push(Permission::WriteProduct);
            permissions.push(Permission::ReadUser);
            permissions.push(Permission::WriteUser);
            permissions.push(Permission::ReadReseller);
            permissions.push(Permission::WriteReseller);
            permissions.push(Permission::ManageVerifications);
            permissions.push(Permission::AdminAccess);
        },
        UserRole::BrandOwner => {
            permissions.push(Permission::ReadOrganization);
            permissions.push(Permission::WriteOrganization);
            permissions.push(Permission::ReadProduct);
            permissions.push(Permission::WriteProduct);
            permissions.push(Permission::ReadUser);
            permissions.push(Permission::WriteUser);
            permissions.push(Permission::ReadReseller);
            permissions.push(Permission::WriteReseller);
            permissions.push(Permission::ManageVerifications);
        },
        UserRole::Reseller => {
            permissions.push(Permission::ReadOrganization);
            permissions.push(Permission::ReadProduct);
            permissions.push(Permission::ReadReseller);
            permissions.push(Permission::ManageVerifications);
        },
    }
    proof {
        assert(permissions@ =~= role_permission_seq(*role));
        assert forall|p: Permission| permissions@.contains(p) <==> role_has_permission(
            *role,
            p,
        ) by {
            let s = role_permission_seq(*role);
            if role_has_permission(*role, p) {
                match p {
                    Permission::ReadOrganization => assert(s[0] == p),
                    Permission::WriteOrganization => assert(s[1] == p),
                    Permission::ReadProduct => {
                        match role {
                            UserRole::Reseller => assert(s[1] == p),
                            _ => assert(s[2] == p),
                        }
                    },
                    Permission::WriteProduct => assert(s[3] == p),
                    Permission::ReadUser => assert(s[4] == p),
                    Permission::WriteUser => assert(s[5] == p),
                    Permission::ReadReseller => {
                        match role {
                            UserRole::Reseller => assert(s[2] == p),
                            _ => assert(s[6] == p),
                        }
                    },
                    Permission::WriteReseller => assert(s[7] == p),
                    Permission::ManageVerifications => {
                        match role {
                            UserRole::Reseller => assert(s[3] == p),
                            _ => assert(s[8] == p),
                        }
                    },
                    Permission::AdminAccess => assert(s[9] == p),
                }
            }
        }
    }
    permissions
}

/// Whether a user record lists these bytes among its session keys.
pub open spec fn has_session_key(u: User, k: Seq<u8>) -> bool {
    ids_contain(u.session_keys.deep_view(), k)
}

/// First user (in registration order) holding the caller as a session
/// key, if any.
pub open spec fn find_by_session(s: Seq<(Id, User)>, k: Seq<u8>) -> Option<User>
    decreases s.len(),
{
    if s.len() == 0 {
        None
    } else if has_session_key(s[0].1, k) {
        Some(s[0].1)
    } else {
        find_by_session(s.drop_first(), k)
    }
}

/// The user a caller principal resolves to: a direct record under the
/// principal, else the first record holding it as a session key.
pub open spec fn spec_find_user(users: IdMap<User>, caller: Seq<u8>) -> Option<User> {
    match users.get(caller) {
        Some(u) => Some(u),
        None => find_by_session(users.entries@, caller),
    }
}

/// Resolves a caller principal to a user record, directly or through a
/// session key. Returns a copy.
pub fn find_user_by_caller(users: &IdMap<User>, caller: &Id) -> (r: Option<User>)
    requires
        users.wf(),
    ensures
        r is Some <==> spec_find_user(*users, caller@) is Some,
        r matches Some(u) ==> u@ == spec_find_user(*users, caller@)->0@,
{
    match users.get_ref(caller) {
        Some(u) => Some(u.clone()),
        None => {
            let mut i: usize = 0;
            while i < users.entries.len()
                invariant
                    users.wf(),
                    users.get(caller@) is None,
                    i <= users.entries@.len(),
                    forall|j: int| 0 <= j < i ==> !has_session_key(users.entries@[j].1, caller@),
                    find_by_session(users.entries@.take(i as int), caller@) is None,
                decreases users.entries@.len() - i,
            {
                if ids_contains(&users.entries[i].1.session_keys, caller) {
                    proof {
                        lemma_find_by_session_hit(users.entries@, i as int, caller@);
                    }
                    return Some(users.entries[i].1.clone());
                }
                proof {
                    assert(users.entries@.take(i + 1).drop_last() =~= users.entries@.take(i as int));
                    lemma_find_by_session_extend(users.entries@, i as int, caller@);
                }
                i = i + 1;
            }
            proof {
                assert(users.entries@.take(users.entries@.len() as int) =~= users.entries@);
            }
            None
        },
    }
}

/// If no earlier record has the session key and the one at `i` does, the
/// scan stops there.
proof fn lemma_find_by_session_hit(s: Seq<(Id, User)>, i: int, k: Seq<u8>)
    requires
        0 <= i < s.len(),
        forall|j: int| 0 <= j < i ==> !has_session_key(s[j].1, k),
        has_session_key(s[i].1, k),
    ensures
        find_by_session(s, k) == Some(s[i].1),
    decreases s.len(),
{
    if i == 0 {
    } else {
        assert(s.drop_first()[i - 1] == s[i]);
        assert forall|j: int| 0 <= j < i - 1 implies !has_session_key(
            s.drop_first()[j].1,
            k,
        ) by {
            assert(s.drop_first()[j] == s[j + 1]);
        }
        lemma_find_by_session_hit(s.drop_first(), i - 1, k);
    }
}

/// A scan that found nothing in the first `i` records and misses at `i`
/// has found nothing in the first `i + 1`.
proof fn lemma_find_by_session_extend(s: Seq<(Id, User)>, i: int, k: Seq<u8>)
    requires
        0 <= i < s.len(),
        find_by_session(s.take(i), k) is None,
        !has_session_key(s[i].1, k),
    ensures
        find_by_session(s.take(i + 1), k) is None,
    decreases i,
{
    if i == 0 {
        assert(s.take(1).len() == 1);
        assert(s.take(1)[0] == s[0]);
        assert(s.take(1).drop_first() =~= Seq::<(Id, User)>::empty());
        assert(find_by_session(Seq::<(Id, User)>::empty(), k) is None);
    } else {
        assert(s.take(i + 1)[0] == s[0]);
        assert(s.take(i)[0] == s[0]);
        if has_session_key(s[0].1, k) {
        } else {
            assert(s.take(i + 1).drop_first() =~= s.drop_first().take(i));
            assert(s.take(i).drop_first() =~= s.drop_first().take(i - 1));
            assert(s.drop_first()[i - 1] == s[i]);
            lemma_find_by_session_extend(s.drop_first(), i - 1, k);
        }
    }
}

/// Whether the caller resolves to a user whose role grants the
/// permission.
pub open spec fn spec_has_permission(users: IdMap<User>, caller: Seq<u8>, p: Permission) -> bool {
    match spec_find_user(users, caller) {
        Some(u) => match u.user_role {
            Some(role) => role_has_permission(role, p),
            None => false,
        },
        None => false,
    }
}

/// Checks that the caller exists and holds the permission. `Ok` exactly
/// when it does; a missing user is `NotFound`, a missing role or
/// insufficient rights `Unauthorized`.
pub fn check_permission(users: &IdMap<User>, user_id: &Id, required_permission: &Permission) -> (r:
    Result<(), ApiError>)
    requires
        users.wf(),
    ensures
        r is Ok <==> spec_has_permission(*users, user_id@, *required_permission),
        r matches Err(e) ==> {
            match spec_find_user(*users, user_id@) {
                None => e is NotFound,
                Some(u) => e is Unauthorized,
            }
        },
{
    let user = match find_user_by_caller(users, user_id) {
        Some(u) => u,
        None => {
            return Err(ApiError::not_found("User not found or session key invalid!"));
        },
    };
    let role = match user.user_role {
        Some(role) => role,
        None => {
            return Err(ApiError::unauthorized("User has no assigned role"));
        },
    };
    let permissions = get_role_permissions(&role);
    let mut i: usize = 0;
    let mut found = false;
    while i < permissions.len()
        invariant
            i <= permissions@.len(),
            found <==> exists|j: int| 0 <= j < i && permissions@[j] == *required_permission,
        decreases permissions@.len() - i,
    {
        if permissions[i] == *required_permission {
            found = true;
        }
        i = i + 1;
    }
    if found {
        Ok(())
    } else {
        assert(!permissions@.contains(*required_permission));
        Err(ApiError::unauthorized("User lacks the required permission"))
    }
}

/// Whether the caller may act on the organization with the permission:
/// the caller's role must grant it, the organization must exist, and a
/// non-admin must be associated with it.
pub open spec fn spec_authorized_for_org(
    users: IdMap<User>,
    orgs: IdMap<Organization>,
    caller: Seq<u8>,
    org_id: Seq<u8>,
    p: Permission,
) -> bool {
    &&& spec_has_permission(users, caller, p)
    &&& orgs.get(org_id) is Some
    &&& {
        let u = spec_find_user(users, caller)->0;
        u.user_role == Some(UserRole::Admin) || ids_contain(u.org_ids.deep_view(), org_id)
    }
}

/// Authorizes the caller against an organization and hands back a copy of
/// its record. `Ok` exactly when the caller's role grants the permission,
/// the organization exists, and a non-admin caller is associated with it.
pub fn authorize_for_organization(
    users: &IdMap<User>,
    orgs: &IdMap<Organization>,
    user_id: &Id,
    org_id: &Id,
    permission: Permission,
) -> (r: Result<Organization, ApiError>)
    requires
        users.wf(),
        orgs.wf(),
    ensures
        r is Ok <==> spec_authorized_for_org(*users, *orgs, user_id@, org_id@, permission),
        r matches Ok(o) ==> o@ == orgs.get(org_id@)->0@,
        r matches Err(e) ==> {
            if spec_find_user(*users, user_id@) is None {
                e is NotFound
            } else if !spec_has_permission(*users, user_id@, permission) {
                e is Unauthorized
            } else if orgs.get(org_id@) is None {
                e is NotFound
            } else {
                e is Unauthorized
            }
        },
{
    let user = match find_user_by_caller(users, user_id) {
        Some(u) => u,
        None => {
            return Err(ApiError::not_found("User not found or session key invalid!"));
        },
    };
    if let Err(e) = check_permission(users, user_id, &permission) {
        return Err(e);
    }
    let organization = match orgs.get_ref(org_id) {
        Some(o) => o.clone(),
        None => {
            return Err(ApiError::not_found("Organization not found!"));
        },
    };
    let is_admin = match user.user_role {
        Some(UserRole::Admin) => true,
        _ => false,
    };
    if !is_admin && !ids_contains(&user.org_ids, org_id) {
        return Err(ApiError::unauthorized("User is not authorized for this organization!"));
    }
    Ok(organization)
}

/// Authorizes read access to an organization, as the oldest callers did.
pub fn authorize_user_organization(
    users: &IdMap<User>,
    orgs: &IdMap<Organization>,
    user_id: &Id,
    org_id: &Id,
) -> (r: Result<Organization, ApiError>)
    requires
        users.wf(),
        orgs.wf(),
    ensures
        r is Ok <==> spec_authorized_for_org(
            *users,
            *orgs,
            user_id@,
            org_id@,
            Permission::ReadOrganization,
        ),
        r matches Ok(o) ==> o@ == orgs.get(org_id@)->0@,
{
    authorize_for_organization(users, orgs, user_id, org_id, Permission::ReadOrganization)
}

/// Checks that the caller resolves to an administrator. `Ok` exactly
/// then; a missing user is `NotFound`, any other role `Unauthorized`.
pub fn ensure_admin(users: &IdMap<User>, user_id: &Id) -> (r: Result<(), ApiError>)
    requires
        users.wf(),
    ensures
        r is Ok <==> (spec_find_user(*users, user_id@) matches Some(u) && u.user_role == Some(
            UserRole::Admin,
        )),
        r matches Err(e) ==> {
            if spec_find_user(*users, user_id@) is None {
                e is NotFound
            } else {
                e is Unauthorized
            }
        },
{
    let user = match find_user_by_caller(users, user_id) {
        Some(u) => u,
        None => {
            return Err(ApiError::not_found("User not found or session key invalid!"));
        },
    };
    match user.user_role {
        Some(UserRole::Admin) => Ok(()),
        _ => Err(ApiError::unauthorized("Admin access required")),
    }
}

} // verus!
