use motherspace::{
    AccountId, MemberStatus, Pricing, RegistrationType, Space, SpaceConfig, SpaceError, SpaceInfo,
};

fn acct(n: u8) -> AccountId {
    AccountId([n; 32])
}

fn info(name: &str) -> SpaceInfo {
    SpaceInfo { name: String::from(name), desc: None, logo: None }
}

fn space_with(config: SpaceConfig, now: u64) -> Space {
    Space::new(acct(1), acct(1), acct(2), info("club"), Some(config), now).unwrap()
}

const REGISTRY: u8 = 1;
const OWNER: u8 = 2;

#[test]
fn new_space_has_owner_as_first_member() {
    let s = space_with(SpaceConfig { registration: RegistrationType::PayToJoin, pricing: Pricing::Free }, 7);
    assert_eq!(s.members_count(), 1);
    assert_eq!(s.member_status(acct(OWNER), 1_000_000), MemberStatus::Active);
    let m = s.member_info(acct(OWNER)).unwrap();
    assert_eq!(m.joined_at, 7);
    assert_eq!(m.next_renewal_at, None);
    assert_eq!(s.motherspace_id(), acct(REGISTRY));
    assert_eq!(s.owner(), acct(OWNER));
}

#[test]
fn new_space_rejects_other_deployer_and_bad_profiles() {
    let r = Space::new(acct(1), acct(9), acct(2), info("club"), None, 0);
    assert_eq!(r.err(), Some(SpaceError::UnAuthorized));
    let r = Space::new(acct(1), acct(1), acct(2), info("ab"), None, 0);
    assert_eq!(r.err(), Some(SpaceError::NameTooShort));
    let r = Space::new(acct(1), acct(1), acct(2), info(&"x".repeat(31)), None, 0);
    assert_eq!(r.err(), Some(SpaceError::NameTooLong));
    let long = SpaceInfo { name: String::from("club"), desc: Some("d".repeat(201)), logo: None };
    let r = Space::new(acct(1), acct(1), acct(2), long, None, 0);
    assert_eq!(r.err(), Some(SpaceError::DescriptionTooLong));
    let ok = SpaceInfo { name: "x".repeat(30), desc: Some("d".repeat(200)), logo: None };
    assert!(Space::new(acct(1), acct(1), acct(2), ok, None, 0).is_ok());
}

#[test]
fn invite_only_config_is_forced_free() {
    let cfg = SpaceConfig {
        registration: RegistrationType::InviteOnly,
        pricing: Pricing::OneTimePaid { price: 5 },
    };
    let s = space_with(cfg, 0);
    assert_eq!(s.config().pricing, Pricing::Free);
    assert_eq!(s.config().registration, RegistrationType::InviteOnly);
    let d = Space::new(acct(1), acct(1), acct(2), info("club"), None, 0).unwrap();
    assert_eq!(d.config().registration, RegistrationType::PayToJoin);
    assert_eq!(d.config().pricing, Pricing::Free);
}

#[test]
fn subscription_ttl_is_days_in_seconds() {
    let cfg = SpaceConfig {
        registration: RegistrationType::PayToJoin,
        pricing: Pricing::Subscription { price: 50, duration: 30 },
    };
    assert_eq!(cfg.ttl(), Some(2_592_000));
    let free = SpaceConfig { registration: RegistrationType::PayToJoin, pricing: Pricing::Free };
    assert_eq!(free.ttl(), None);
}

#[test]
fn granted_member_lapses_with_time_only() {
    let mut s = space_with(SpaceConfig { registration: RegistrationType::InviteOnly, pricing: Pricing::Free }, 0);
    assert_eq!(s.member_status(acct(5), 100), MemberStatus::NonMember);
    assert_eq!(s.grant_membership(acct(OWNER), 100, acct(5), Some(50)), Ok(()));
    assert_eq!(s.member_status(acct(5), 100), MemberStatus::Active);
    assert_eq!(s.member_status(acct(5), 149), MemberStatus::Active);
    assert_eq!(s.member_status(acct(5), 150), MemberStatus::Inactive);
    assert!(!s.is_active_member(acct(5), 150));
    assert_eq!(s.member_info(acct(5)).unwrap().next_renewal_at, Some(150));
    assert_eq!(s.members_count(), 2);
    // an expired member is granted again in place
    assert_eq!(s.grant_membership(acct(OWNER), 200, acct(5), None), Ok(()));
    assert_eq!(s.members_count(), 2);
    assert_eq!(s.member_status(acct(5), u64::MAX), MemberStatus::Active);
    assert_eq!(s.member_info(acct(5)).unwrap().joined_at, 100);
}

#[test]
fn grant_refuses_active_member_and_non_owner() {
    let mut s = space_with(SpaceConfig { registration: RegistrationType::InviteOnly, pricing: Pricing::Free }, 0);
    assert_eq!(s.grant_membership(acct(9), 1, acct(5), None), Err(SpaceError::CallerIsNotOwner));
    assert_eq!(s.grant_membership(acct(OWNER), 1, acct(5), None), Ok(()));
    assert_eq!(
        s.grant_membership(acct(OWNER), 2, acct(5), None),
        Err(SpaceError::MemberExisted(acct(5)))
    );
    assert_eq!(
        s.grant_membership(acct(OWNER), 2, acct(6), Some(u64::MAX)),
        Err(SpaceError::CounterOverflow)
    );
    assert_eq!(s.members_count(), 2);
}

#[test]
fn one_time_paid_exact_price_never_lapses() {
    let cfg = SpaceConfig {
        registration: RegistrationType::PayToJoin,
        pricing: Pricing::OneTimePaid { price: 100 },
    };
    let mut s = space_with(cfg, 0);
    assert_eq!(s.pay_to_join(acct(5), 10, None, 99), Err(SpaceError::InsufficientPayment));
    assert_eq!(s.member_status(acct(5), 10), MemberStatus::NonMember);
    assert_eq!(s.pay_to_join(acct(5), 10, None, 100), Ok(()));
    assert_eq!(s.member_info(acct(5)).unwrap().next_renewal_at, None);
    assert_eq!(s.member_status(acct(5), 10), MemberStatus::Active);
    assert_eq!(s.member_status(acct(5), u64::MAX), MemberStatus::Active);
}

#[test]
fn subscription_expires_after_duration() {
    let cfg = SpaceConfig {
        registration: RegistrationType::PayToJoin,
        pricing: Pricing::Subscription { price: 50, duration: 30 },
    };
    let mut s = space_with(cfg, 0);
    let t0: u64 = 1_000;
    assert_eq!(s.pay_to_join(acct(9), t0, Some(acct(5)), 50), Ok(()));
    let renewal = t0 + 30 * 86400;
    assert_eq!(s.member_info(acct(5)).unwrap().next_renewal_at, Some(renewal));
    assert_eq!(s.member_status(acct(5), renewal - 1), MemberStatus::Active);
    assert_eq!(s.member_status(acct(5), renewal), MemberStatus::Inactive);
    assert_eq!(s.member_status(acct(5), renewal + 1), MemberStatus::Inactive);
    // an expired member cannot pay again through this path
    assert_eq!(
        s.pay_to_join(acct(5), renewal + 1, None, 50),
        Err(SpaceError::MemberExisted(acct(5)))
    );
}

#[test]
fn pay_to_join_needs_pay_to_join_mode() {
    let cfg = SpaceConfig { registration: RegistrationType::RequestToJoin, pricing: Pricing::Free };
    let mut s = space_with(cfg, 0);
    assert_eq!(s.pay_to_join(acct(5), 1, None, 0), Err(SpaceError::PayToJoinNotSupported));
    let free = SpaceConfig { registration: RegistrationType::PayToJoin, pricing: Pricing::Free };
    let mut f = space_with(free, 0);
    assert_eq!(f.pay_to_join(acct(5), 1, None, 0), Ok(()));
    assert_eq!(f.pay_to_join(acct(5), 2, None, 0), Err(SpaceError::MemberExisted(acct(5))));
}

#[test]
fn leave_rules() {
    let free = SpaceConfig { registration: RegistrationType::PayToJoin, pricing: Pricing::Free };
    let mut s = space_with(free, 0);
    assert_eq!(s.leave(acct(OWNER), 1), Err(SpaceError::OwnerCannotLeave));
    assert_eq!(s.leave(acct(5), 1), Err(SpaceError::NotActiveMember));
    assert_eq!(s.pay_to_join(acct(5), 1, None, 0), Ok(()));
    assert_eq!(s.members_count(), 2);
    assert_eq!(s.leave(acct(5), 2), Ok(()));
    assert_eq!(s.member_status(acct(5), 2), MemberStatus::Left);
    assert_eq!(s.member_info(acct(5)).unwrap().next_renewal_at, Some(0));
    assert_eq!(s.leave(acct(5), 3), Err(SpaceError::NotActiveMember));
    assert_eq!(s.grant_membership(acct(OWNER), 4, acct(5), None), Ok(()));
    assert_eq!(s.members_count(), 2);
    assert_eq!(s.member_status(acct(5), 4), MemberStatus::Active);
}

#[test]
fn expired_member_cannot_leave() {
    let mut s = space_with(SpaceConfig { registration: RegistrationType::InviteOnly, pricing: Pricing::Free }, 0);
    assert_eq!(s.grant_membership(acct(OWNER), 10, acct(5), Some(5)), Ok(()));
    assert_eq!(s.leave(acct(5), 15), Err(SpaceError::NotActiveMember));
}

#[test]
fn update_member_info_checks_name_and_status() {
    let mut s = space_with(SpaceConfig { registration: RegistrationType::InviteOnly, pricing: Pricing::Free }, 0);
    assert_eq!(
        s.update_member_info(acct(5), 1, Some(String::from("bob"))),
        Err(SpaceError::NotActiveMember)
    );
    assert_eq!(s.grant_membership(acct(OWNER), 1, acct(5), Some(10)), Ok(()));
    assert_eq!(
        s.update_member_info(acct(5), 2, Some(String::from("bo"))),
        Err(SpaceError::DisplayNameTooShort)
    );
    assert_eq!(
        s.update_member_info(acct(5), 2, Some("b".repeat(31))),
        Err(SpaceError::DisplayNameTooLong)
    );
    assert_eq!(s.update_member_info(acct(5), 2, Some(String::from("bob"))), Ok(()));
    assert_eq!(s.member_info(acct(5)).unwrap().name, Some(String::from("bob")));
    // an expired member may still set its name
    assert_eq!(s.update_member_info(acct(5), 50, None), Ok(()));
    assert_eq!(s.member_info(acct(5)).unwrap().name, None);
    assert_eq!(s.leave(acct(OWNER), 50), Err(SpaceError::OwnerCannotLeave));
}

#[test]
fn list_members_pages() {
    let mut s = space_with(SpaceConfig { registration: RegistrationType::InviteOnly, pricing: Pricing::Free }, 0);
    for n in 10u8..22 {
        assert_eq!(s.grant_membership(acct(OWNER), 1, acct(n), None), Ok(()));
    }
    assert_eq!(s.members_count(), 13);
    let p = s.list_members(0, 5);
    assert_eq!(p.items.len(), 5);
    assert_eq!(p.items[0].account_id, acct(OWNER));
    assert_eq!(p.items[1].index, 1);
    assert_eq!(p.items[1].account_id, acct(10));
    assert!(p.has_next_page);
    assert_eq!(p.total, 13);
    let last = s.list_members(10, 5);
    assert_eq!(last.items.len(), 3);
    assert_eq!(last.items[2].index, 12);
    assert!(!last.has_next_page);
    let capped = s.list_members(0, 100);
    assert_eq!(capped.per_page, 50);
    assert_eq!(capped.items.len(), 13);
    assert_eq!(s.list_members(20, 5).items.len(), 0);
}

#[test]
fn owner_only_settings() {
    let mut s = space_with(SpaceConfig { registration: RegistrationType::PayToJoin, pricing: Pricing::Free }, 0);
    let cfg = SpaceConfig { registration: RegistrationType::InviteOnly, pricing: Pricing::OneTimePaid { price: 3 } };
    assert_eq!(s.update_config(acct(9), cfg), Err(SpaceError::CallerIsNotOwner));
    assert_eq!(s.update_config(acct(OWNER), cfg), Ok(()));
    assert_eq!(s.config().pricing, Pricing::Free);
    assert_eq!(s.update_info(acct(9), info("other")), Err(SpaceError::CallerIsNotOwner));
    assert_eq!(s.update_info(acct(OWNER), info("ot")), Err(SpaceError::NameTooShort));
    let long_desc = SpaceInfo { name: String::from("other"), desc: Some("d".repeat(201)), logo: None };
    assert_eq!(s.update_info(acct(OWNER), long_desc), Err(SpaceError::DescriptionTooLong));
    assert_eq!(s.info().name, "club");
    assert_eq!(s.update_info(acct(OWNER), info("other")), Ok(()));
    assert_eq!(s.info().name, "other");
    assert_eq!(s.transfer_ownership(acct(9), acct(9)), Err(SpaceError::CallerIsNotOwner));
    assert_eq!(s.transfer_ownership(acct(OWNER), acct(9)), Ok(()));
    assert_eq!(s.owner(), acct(9));
}
