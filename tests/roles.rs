use access_control::{Permission, Role, SubstrateWeight, Weight, WeightInfo};

#[test]
fn role_default_permissions() {
    assert_eq!(
        Role::Publisher.default_permissions(),
        vec![
            Permission::RegisterIdentity,
            Permission::SubmitNegativeData,
            Permission::AddCitation,
            Permission::CreateListing,
        ]
    );
    assert_eq!(
        Role::Regulator.default_permissions(),
        vec![
            Permission::ViewAuditLog,
            Permission::ManageCompliance,
            Permission::VerifyIdentity,
            Permission::VerifyNegativeData,
        ]
    );
    assert_eq!(Role::Patient.default_permissions().len(), 11);
    assert_eq!(Role::Researcher.default_permissions().len(), 8);
    assert_eq!(Role::Institution.default_permissions().len(), 5);
    assert_eq!(Role::Auditor.default_permissions().len(), 5);
    assert!(!Role::Patient.default_permissions().contains(&Permission::AccessData));
    assert!(Role::Researcher.default_permissions().contains(&Permission::AccessData));
}

#[test]
fn administrator_holds_every_permission() {
    let all = Role::Administrator.default_permissions();
    assert_eq!(all.len(), 24);
    for code in 0..24u8 {
        assert!(all.contains(&Permission::from(code)));
    }
}

#[test]
fn role_and_permission_codes() {
    for code in 0..7u8 {
        assert_eq!(u8::from(Role::from(code)), code);
    }
    assert_eq!(Role::from(6), Role::Administrator);
    assert_eq!(Role::from(7), Role::Patient);
    assert_eq!(Role::decode(7), None);
    assert_eq!(Permission::from(23), Permission::WithdrawFunds);
    assert_eq!(Permission::from(24), Permission::RegisterIdentity);
    assert_eq!(Permission::decode(24), None);
    assert_eq!(Permission::decode(8), Some(Permission::AccessData));
}

#[test]
fn default_weights() {
    assert_eq!(SubstrateWeight::create_policy(), Weight::from_parts(70_000_000, 0));
    assert_eq!(SubstrateWeight::evaluate_policy().ref_time, 55_000_000);
    assert_eq!(SubstrateWeight::detach_policy_from_record().proof_size, 0);
    assert_eq!(SubstrateWeight::revoke_attribute().ref_time, 40_000_000);
}
