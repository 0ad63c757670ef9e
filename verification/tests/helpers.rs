use raw_ipa::helpers::{AssignmentError, ChannelId, Gate, HelperIdentity, Role, RoleAssignment};
use raw_ipa::hpke::{KeyPair, KeyRegistry};
use raw_ipa::protocol::RecordId;

#[test]
fn roles_are_assigned_from_pairs_in_any_order() {
    let [one, two, three] = HelperIdentity::make_three();
    let roles =
        RoleAssignment::try_from([(two, Role::H3), (three, Role::H1), (one, Role::H2)]).unwrap();
    assert_eq!(RoleAssignment::new([three, one, two]), roles);
    assert_eq!(Role::H1, roles.role(three));
    assert_eq!(Role::H2, roles.role(one));
    assert_eq!(Role::H3, roles.role(two));
    for role in Role::all() {
        assert_eq!(role, roles.role(roles.identity(role)));
    }
}

#[test]
fn an_assignment_needs_every_role_and_every_helper_once() {
    let [one, two, three] = HelperIdentity::make_three();
    assert_eq!(
        Err(AssignmentError::RoleNotAssigned(Role::H1)),
        RoleAssignment::try_from([(one, Role::H2), (two, Role::H3), (three, Role::H3)])
    );
    assert_eq!(
        Err(AssignmentError::RoleNotAssigned(Role::H2)),
        RoleAssignment::try_from([(one, Role::H1), (two, Role::H3), (three, Role::H1)])
    );
    assert_eq!(
        Err(AssignmentError::RoleNotAssigned(Role::H3)),
        RoleAssignment::try_from([(one, Role::H1), (two, Role::H2), (three, Role::H2)])
    );
    assert_eq!(
        Err(AssignmentError::HelperAssignedTwice(one)),
        RoleAssignment::try_from([(one, Role::H1), (one, Role::H2), (three, Role::H3)])
    );
    assert_eq!(
        Err(AssignmentError::HelperAssignedTwice(two)),
        RoleAssignment::try_from([(two, Role::H3), (one, Role::H1), (two, Role::H2)])
    );
    assert_eq!(
        Err(AssignmentError::HelperAssignedTwice(three)),
        RoleAssignment::try_from([(three, Role::H1), (one, Role::H2), (three, Role::H3)])
    );
}

#[test]
fn the_ring_goes_round() {
    let [one, two, three] = HelperIdentity::make_three();
    assert_eq!([two, three], one.others());
    assert_eq!([three, one], two.others());
    assert_eq!([one, two], three.others());
    assert_eq!([0, 1, 2], Role::all().map(Role::index));
}

#[test]
fn channels_are_told_apart_by_role_and_gate() {
    let x = ChannelId::new(Role::H1, Gate::from_str("protocol/x"));
    assert!(x.same_as(&x.duplicate()));
    assert!(x.same_as(&ChannelId::new(Role::H1, Gate::new("protocol/x".to_string()))));
    assert!(!x.same_as(&ChannelId::new(Role::H2, Gate::from_str("protocol/x"))));
    assert!(!x.same_as(&ChannelId::new(Role::H1, Gate::from_str("protocol/y"))));
    assert_eq!("protocol/x", x.gate.as_str());
    assert_eq!("protocol/x", x.gate.to_string());
    assert!(x.gate.same_as(&x.gate.duplicate()));
}

#[test]
fn keys_are_found_by_their_position() {
    assert_eq!(0, KeyRegistry::empty().len());
    assert!(KeyRegistry::empty().get(0).is_none());
    let registry = KeyRegistry::from_keys(vec![
        KeyPair { public_key: vec![1], secret_key: vec![2] },
        KeyPair { public_key: vec![3], secret_key: vec![4] },
    ]);
    assert_eq!(2, registry.len());
    assert_eq!(vec![3], registry.get(1).unwrap().public_key);
    assert_eq!(vec![2], registry.get(0).unwrap().secret_key);
    assert!(registry.get(2).is_none());
}

#[test]
fn record_numbers_start_at_zero() {
    assert_eq!(RecordId(0), RecordId::first());
    assert_eq!(RecordId(7), RecordId::from(7_u32));
    assert_eq!(7, RecordId(7).as_u32());
}
