//! Platform roles, the permissions they carry by default, and their codes.
use vstd::prelude::*;

verus! {

/// Roles on the platform.
#[derive(Clone, Copy, PartialEq, Eq, Structural, Debug)]
pub enum Role {
    /// Manages its own data and consents.
    Patient,
    /// Requests access to data.
    Researcher,
    /// Verifies identities and negative data.
    Institution,
    /// Verifies and audits activities.
    Auditor,
    /// Publishes negative data.
    Publisher,
    /// Oversees compliance.
    Regulator,
    /// Holds every permission.
    Administrator,
}

/// Fine-grained permissions.
#[derive(Clone, Copy, PartialEq, Eq, Structural, Debug)]
pub enum Permission {
    RegisterIdentity,
    VerifyIdentity,
    UpdateIdentity,
    GrantConsent,
    RevokeConsent,
    UpdateConsent,
    CheckConsent,
    UploadData,
    AccessData,
    DeleteData,
    ExportData,
    SubmitNegativeData,
    VerifyNegativeData,
    RejectNegativeData,
    ClaimReward,
    AddCitation,
    ManageRoles,
    ManagePermissions,
    ViewAuditLog,
    ManageCompliance,
    CreateListing,
    PurchaseData,
    SetPrice,
    WithdrawFunds,
}

/// The permissions a role carries by default, in their listed order.
pub open spec fn role_permissions(role: Role) -> Seq<Permission> {
    match role {
        Role::Patient => seq![
            Permission::RegisterIdentity,
            Permission::UpdateIdentity,
            Permission::GrantConsent,
            Permission::RevokeConsent,
            Permission::UpdateConsent,
            Permission::UploadData,
            Permission::DeleteData,
            Permission::ViewAuditLog,
            Permission::CreateListing,
            Permission::SetPrice,
            Permission::WithdrawFunds,
        ],
        Role::Researcher => seq![
            Permission::RegisterIdentity,
            Permission::UpdateIdentity,
            Permission::CheckConsent,
            Permission::AccessData,
            Permission::SubmitNegativeData,
            Permission::ClaimReward,
            Permission::AddCitation,
            Permission::PurchaseData,
        ],
        Role::Institution => seq![
            Permission::RegisterIdentity,
            Permission::VerifyIdentity,
            Permission::VerifyNegativeData,
            Permission::RejectNegativeData,
            Permission::ViewAuditLog,
        ],
        Role::Auditor => seq![
            Permission::RegisterIdentity,
            Permission::VerifyIdentity,
            Permission::VerifyNegativeData,
            Permission::ViewAuditLog,
            Permission::ManageCompliance,
        ],
        Role::Publisher => seq![
            Permission::RegisterIdentity,
            Permission::SubmitNegativeData,
            Permission::AddCitation,
            Permission::CreateListing,
        ],
        Role::Regulator => seq![
            Permission::ViewAuditLog,
            Permission::ManageCompliance,
            Permission::VerifyIdentity,
            Permission::VerifyNegativeData,
        ],
        Role::Administrator => seq![
            Permission::RegisterIdentity,
            Permission::VerifyIdentity,
            Permission::UpdateIdentity,
            Permission::GrantConsent,
            Permission::RevokeConsent,
            Permission::UpdateConsent,
            Permission::CheckConsent,
            Permission::UploadData,
            Permission::AccessData,
            Permission::DeleteData,
            Permission::ExportData,
            Permission::SubmitNegativeData,
            Permission::VerifyNegativeData,
            Permission::RejectNegativeData,
            Permission::ClaimReward,
            Permission::AddCitation,
            Permission::ManageRoles,
            Permission::ManagePermissions,
            Permission::ViewAuditLog,
            Permission::ManageCompliance,
            Permission::CreateListing,
            Permission::PurchaseData,
            Permission::SetPrice,
            Permission::WithdrawFunds,
        ],
    }
}

/// The permission with code `value`, if any.
pub open spec fn permission_code(value: u8) -> Option<Permission> {
    if value == 0 {
        Some(Permission::RegisterIdentity)
    } else if value == 1 {
        Some(Permission::VerifyIdentity)
    } else if value == 2 {
        Some(Permission::UpdateIdentity)
    } else if value == 3 {
        Some(Permission::GrantConsent)
    } else if value == 4 {
        Some(Permission::RevokeConsent)
    } else if value == 5 {
        Some(Permission::UpdateConsent)
    } else if value == 6 {
        Some(Permission::CheckConsent)
    } else if value == 7 {
        Some(Permission::UploadData)
    } else if value == 8 {
        Some(Permission::AccessData)
    } else if value == 9 {
        Some(Permission::DeleteData)
    } else if value == 10 {
        Some(Permission::ExportData)
    } else if value == 11 {
        Some(Permission::SubmitNegativeData)
    } else if value == 12 {
        Some(Permission::VerifyNegativeData)
    } else if value == 13 {
        Some(Permission::RejectNegativeData)
    } else if value == 14 {
        Some(Permission::ClaimReward)
    } else if value == 15 {
        Some(Permission::AddCitation)
    } else if value == 16 {
        Some(Permission::ManageRoles)
    } else if value == 17 {
        Some(Permission::ManagePermissions)
    } else if value == 18 {
        Some(Permission::ViewAuditLog)
    } else if value == 19 {
        Some(Permission::ManageCompliance)
    } else if value == 20 {
        Some(Permission::CreateListing)
    } else if value == 21 {
        Some(Permission::PurchaseData)
    } else if value == 22 {
        Some(Permission::SetPrice)
    } else if value == 23 {
        Some(Permission::WithdrawFunds)
    } else {
        None
    }
}

/// The role with code `value`, if any.
pub open spec fn role_code(value: u8) -> Option<Role> {
    if value == 0 {
        Some(Role::Patient)
    } else if value == 1 {
        Some(Role::Researcher)
    } else if value == 2 {
        Some(Role::Institution)
    } else if value == 3 {
        Some(Role::Auditor)
    } else if value == 4 {
        Some(Role::Publisher)
    } else if value == 5 {
        Some(Role::Regulator)
    } else if value == 6 {
        Some(Role::Administrator)
    } else {
        None
    }
}

/// The code under which a role is stored.
pub open spec fn code_of_role(role: Role) -> u8 {
    match role {
        Role::Patient => 0,
        Role::Researcher => 1,
        Role::Institution => 2,
        Role::Auditor => 3,
        Role::Publisher => 4,
        Role::Regulator => 5,
        Role::Administrator => 6,
    }
}

impl Role {
    /// The permissions this role carries by default.
    pub fn default_permissions(&self) -> (r: Vec<Permission>)
        ensures
            r@ == role_permissions(*self),
            r@.no_duplicates(),
            *self == Role::Administrator ==> forall|p: Permission| r@.contains(p),
    {
        let r = match self {
            Role::Patient => vec![
                Permission::RegisterIdentity,
                Permission::UpdateIdentity,
                Permission::GrantConsent,
                Permission::RevokeConsent,
                Permission::UpdateConsent,
                Permission::UploadData,
                Permission::DeleteData,
                Permission::ViewAuditLog,
                Permission::CreateListing,
                Permission::SetPrice,
                Permission::WithdrawFunds,
            ],
            Role::Researcher => vec![
                Permission::RegisterIdentity,
                Permission::UpdateIdentity,
                Permission::CheckConsent,
                Permission::AccessData,
                Permission::SubmitNegativeData,
                Permission::ClaimReward,
                Permission::AddCitation,
                Permission::PurchaseData,
            ],
            Role::Institution => vec![
                Permission::RegisterIdentity,
                Permission::VerifyIdentity,
                Permission::VerifyNegativeData,
                Permission::RejectNegativeData,
                Permission::ViewAuditLog,
            ],
            Role::Auditor => vec![
                Permission::RegisterIdentity,
                Permission::VerifyIdentity,
                Permission::VerifyNegativeData,
                Permission::ViewAuditLog,
                Permission::ManageCompliance,
            ],
            Role::Publisher => vec![
                Permission::RegisterIdentity,
                Permission::SubmitNegativeData,
                Permission::AddCitation,
                Permission::CreateListing,
            ],
            Role::Regulator => vec![
                Permission::ViewAuditLog,
                Permission::ManageCompliance,
                Permission::VerifyIdentity,
                Permission::VerifyNegativeData,
            ],
            Role::Administrator => vec![
                Permission::RegisterIdentity,
                Permission::VerifyIdentity,
                Permission::UpdateIdentity,
                Permission::GrantConsent,
                Permission::RevokeConsent,
                Permission::UpdateConsent,
                Permission::CheckConsent,
                Permission::UploadData,
                Permission::AccessData,
                Permission::DeleteData,
                Permission::ExportData,
                Permission::SubmitNegativeData,
                Permission::VerifyNegativeData,
                Permission::RejectNegativeData,
                Permission::ClaimReward,
                Permission::AddCitation,
                Permission::ManageRoles,
                Permission::ManagePermissions,
                Permission::ViewAuditLog,
                Permission::ManageCompliance,
                Permission::CreateListing,
                Permission::PurchaseData,
                Permission::SetPrice,
                Permission::WithdrawFunds,
            ],
        };
        assert(r@ =~= role_permissions(*self));
        proof {
            let s = r@;
            assert forall|i: int, j: int| 0 <= i < s.len() && 0 <= j < s.len() && i != j implies s[i] != s[j] by {
                match *self {
                    Role::Patient => {},
                    Role::Researcher => {},
                    Role::Institution => {},
                    Role::Auditor => {},
                    Role::Publisher => {},
                    Role::Regulator => {},
                    Role::Administrator => {},
                }
            }
            if *self == Role::Administrator {
                assert forall|p: Permission| s.contains(p) by {
                    match p {
                        Permission::RegisterIdentity => assert(s[0] == p),
                        Permission::VerifyIdentity => assert(s[1] == p),
                        Permission::UpdateIdentity => assert(s[2] == p),
                        Permission::GrantConsent => assert(s[3] == p),
                        Permission::RevokeConsent => assert(s[4] == p),
                        Permission::UpdateConsent => assert(s[5] == p),
                        Permission::CheckConsent => assert(s[6] == p),
                        Permission::UploadData => assert(s[7] == p),
                        Permission::AccessData => assert(s[8] == p),
                        Permission::DeleteData => assert(s[9] == p),
                        Permission::ExportData => assert(s[10] == p),
                        Permission::SubmitNegativeData => assert(s[11] == p),
                        Permission::VerifyNegativeData => assert(s[12] == p),
                        Permission::RejectNegativeData => assert(s[13] == p),
                        Permission::ClaimReward => assert(s[14] == p),
                        Permission::AddCitation => assert(s[15] == p),
                        Permission::ManageRoles => assert(s[16] == p),
                        Permission::ManagePermissions => assert(s[17] == p),
                        Permission::ViewAuditLog => assert(s[18] == p),
                        Permission::ManageCompliance => assert(s[19] == p),
                        Permission::CreateListing => assert(s[20] == p),
                        Permission::PurchaseData => assert(s[21] == p),
                        Permission::SetPrice => assert(s[22] == p),
                        Permission::WithdrawFunds => assert(s[23] == p),
                    }
                }
            }
        }
        r
    }

    /// Strict decoding: `None` for a code that names no role.
    pub fn decode(value: u8) -> (r: Option<Role>)
        ensures
            r == role_code(value),
    {
        match value {
            0 => Some(Role::Patient),
            1 => Some(Role::Researcher),
            2 => Some(Role::Institution),
            3 => Some(Role::Auditor),
            4 => Some(Role::Publisher),
            5 => Some(Role::Regulator),
            6 => Some(Role::Administrator),
            _ => None,
        }
    }
}

/// Lenient decoding: an unknown code gives `Patient`.
impl From<u8> for Role {
    fn from(value: u8) -> (r: Role) {
        match Role::decode(value) {
            Some(role) => role,
            None => Role::Patient,
        }
    }
}

impl vstd::std_specs::convert::FromSpecImpl<u8> for Role {
    open spec fn obeys_from_spec() -> bool {
        true
    }

    open spec fn from_spec(v: u8) -> Role {
        match role_code(v) {
            Some(role) => role,
            None => Role::Patient,
        }
    }
}

impl From<Role> for u8 {
    fn from(role: Role) -> (r: u8) {
        match role {
            Role::Patient => 0,
            Role::Researcher => 1,
            Role::Institution => 2,
            Role::Auditor => 3,
            Role::Publisher => 4,
            Role::Regulator => 5,
            Role::Administrator => 6,
        }
    }
}

impl vstd::std_specs::convert::FromSpecImpl<Role> for u8 {
    open spec fn obeys_from_spec() -> bool {
        true
    }

    open spec fn from_spec(v: Role) -> u8 {
        code_of_role(v)
    }
}

impl Permission {
    /// Strict decoding: `None` for a code that names no permission.
    pub fn decode(value: u8) -> (r: Option<Permission>)
        ensures
            r == permission_code(value),
    {
        match value {
            0 => Some(Permission::RegisterIdentity),
            1 => Some(Permission::VerifyIdentity),
            2 => Some(Permission::UpdateIdentity),
            3 => Some(Permission::GrantConsent),
            4 => Some(Permission::RevokeConsent),
            5 => Some(Permission::UpdateConsent),
            6 => Some(Permission::CheckConsent),
            7 => Some(Permission::UploadData),
            8 => Some(Permission::AccessData),
            9 => Some(Permission::DeleteData),
            10 => Some(Permission::ExportData),
            11 => Some(Permission::SubmitNegativeData),
            12 => Some(Permission::VerifyNegativeData),
            13 => Some(Permission::RejectNegativeData),
            14 => Some(Permission::ClaimReward),
            15 => Some(Permission::AddCitation),
            16 => Some(Permission::ManageRoles),
            17 => Some(Permission::ManagePermissions),
            18 => Some(Permission::ViewAuditLog),
            19 => Some(Permission::ManageCompliance),
            20 => Some(Permission::CreateListing),
            21 => Some(Permission::PurchaseData),
            22 => Some(Permission::SetPrice),
            23 => Some(Permission::WithdrawFunds),
            _ => None,
        }
    }
}

/// Lenient decoding: an unknown code gives `RegisterIdentity`.
impl From<u8> for Permission {
    fn from(value: u8) -> (r: Permission) {
        match Permission::decode(value) {
            Some(p) => p,
            None => Permission::RegisterIdentity,
        }
    }
}

impl vstd::std_specs::convert::FromSpecImpl<u8> for Permission {
    open spec fn obeys_from_spec() -> bool {
        true
    }

    open spec fn from_spec(v: u8) -> Permission {
        match permission_code(v) {
            Some(p) => p,
            None => Permission::RegisterIdentity,
        }
    }
}

} // verus!
