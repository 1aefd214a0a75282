use motherspace::{
    only_active_member, only_space_owner, AccountId, CodeRef, DeployRequest, Flipper, LaunchRequest, LauncherError, MemberStatus, MotherSpace,
    MotherSpaceError, PluginError, PluginId, PluginLauncher, SpaceError, SpaceInfo, VersionedCodeLog,
};

fn acct(n: u8) -> AccountId {
    AccountId([n; 32])
}

fn code(n: u8) -> CodeRef {
    CodeRef([n; 32])
}

fn info() -> SpaceInfo {
    SpaceInfo { name: String::from("space"), desc: None, logo: None }
}

const ROOT: u8 = 1;
const REG_OWNER: u8 = 2;
const K1: PluginId = PluginId(*b"post");
const K2: PluginId = PluginId(*b"poll");

fn space_addr(n: u32) -> AccountId {
    let mut b = [0u8; 32];
    b[0] = 200;
    b[1..5].copy_from_slice(&n.to_le_bytes());
    AccountId(b)
}

#[test]
fn code_log_versions() {
    let mut log = VersionedCodeLog::new();
    assert_eq!(log.latest(), None);
    assert_eq!(log.append(code(1)), Some(1));
    assert_eq!(log.append(code(2)), Some(2));
    assert_eq!(log.latest(), Some(code(2)));
    assert_eq!(log.nonce_value(), 2);
}

#[test]
fn deploy_attaches_only_registered_kinds() {
    let mut m = MotherSpace::new(code(9), acct(REG_OWNER));
    assert_eq!(m.register_plugin_launcher(acct(REG_OWNER), K1, acct(50)), Ok(0));
    let resolved = m.resolve_launchers(&vec![K1, K2]);
    assert_eq!(resolved, vec![(K1, acct(50))]);
    let r = m.deploy_new_space(
        acct(7), acct(ROOT), 10, info(), None, None, Some(vec![K1, K2]), space_addr(0), &vec![Some(acct(60))],
    );
    let (space, attached) = r.unwrap();
    assert_eq!(attached, vec![(K1, acct(60))]);
    assert_eq!(space.plugin_ids(), vec![K1]);
    assert_eq!(space.owner(), acct(7));
    assert_eq!(space.member_status(acct(7), 10), MemberStatus::Active);
    assert_eq!(m.spaces_count(), 1);
    assert!(m.is_deployed_space(space_addr(0)));
    assert_eq!(m.member_spaces(acct(7), None), vec![space_addr(0)]);
}

#[test]
fn deploy_without_plugins() {
    let mut m = MotherSpace::new(code(9), acct(REG_OWNER));
    let r = m.deploy_new_space(acct(7), acct(ROOT), 0, info(), None, Some(acct(8)), None, space_addr(0), &vec![]);
    let (space, attached) = r.unwrap();
    assert!(attached.is_empty());
    assert_eq!(space.owner(), acct(8));
    assert_eq!(m.member_spaces(acct(0), Some(acct(8))), vec![space_addr(0)]);
    assert!(m.member_spaces(acct(7), None).is_empty());
}

#[test]
fn deploy_failures_leave_registry_unchanged() {
    let mut m = MotherSpace::new(code(9), acct(REG_OWNER));
    assert_eq!(m.register_plugin_launcher(acct(REG_OWNER), K1, acct(50)), Ok(0));
    let r = m.deploy_new_space(acct(7), acct(ROOT), 0, info(), None, None, Some(vec![K1]), space_addr(0), &vec![None]);
    assert_eq!(r.err(), Some(MotherSpaceError::PluginLaunchFailed));
    let r = m.deploy_new_space(acct(7), acct(ROOT), 0, info(), None, None, Some(vec![K1]), space_addr(0), &vec![]);
    assert_eq!(r.err(), Some(MotherSpaceError::PluginLaunchFailed));
    let r = m.deploy_new_space(
        acct(7), acct(ROOT), 0, info(), None, None, Some(vec![K1, K1]), space_addr(0), &vec![Some(acct(60)), Some(acct(61))],
    );
    assert_eq!(r.err(), Some(MotherSpaceError::PluginAttachFailed));
    let bad = SpaceInfo { name: String::from("ab"), desc: None, logo: None };
    let r = m.deploy_new_space(acct(7), acct(ROOT), 0, bad, None, None, None, space_addr(0), &vec![]);
    assert_eq!(r.err(), Some(MotherSpaceError::SpaceRejected(SpaceError::NameTooShort)));
    assert_eq!(m.spaces_count(), 0);
    assert!(m.member_spaces(acct(7), None).is_empty());
    assert!(m.deploy_new_space(acct(7), acct(ROOT), 0, info(), None, None, None, space_addr(0), &vec![]).is_ok());
    let r = m.deploy_new_space(acct(7), acct(ROOT), 0, info(), None, None, None, space_addr(0), &vec![]);
    assert_eq!(r.err(), Some(MotherSpaceError::SpaceAlreadyDeployed));
    assert_eq!(m.spaces_count(), 1);
}

#[test]
fn list_spaces_pages_over_twenty_five() {
    let mut m = MotherSpace::new(code(9), acct(REG_OWNER));
    for n in 0..25u32 {
        assert!(m.deploy_new_space(acct(7), acct(ROOT), 0, info(), None, None, None, space_addr(n), &vec![]).is_ok());
    }
    let first = m.list_spaces(0, 10);
    assert_eq!(first.items.len(), 10);
    assert!(first.has_next_page);
    assert_eq!(first.items[3], space_addr(3));
    assert_eq!(first.total, 25);
    let last = m.list_spaces(20, 10);
    assert_eq!(last.items.len(), 5);
    assert!(!last.has_next_page);
    assert_eq!(last.items[4], space_addr(24));
    assert_eq!(m.list_spaces(0, 80).items.len(), 25);
    assert_eq!(m.list_spaces(0, 80).per_page, 50);
    assert_eq!(m.member_spaces(acct(7), None).len(), 25);
}

#[test]
fn member_links_only_from_deployed_spaces() {
    let mut m = MotherSpace::new(code(9), acct(REG_OWNER));
    assert!(m.deploy_new_space(acct(7), acct(ROOT), 0, info(), None, None, None, space_addr(0), &vec![]).is_ok());
    assert!(m.deploy_new_space(acct(7), acct(ROOT), 0, info(), None, None, None, space_addr(1), &vec![]).is_ok());
    assert_eq!(m.add_space_member(acct(99), acct(5)), Err(MotherSpaceError::UnAuthorized));
    assert_eq!(m.add_space_member(space_addr(1), acct(5)), Ok(()));
    assert_eq!(m.add_space_member(space_addr(0), acct(5)), Ok(()));
    assert_eq!(m.add_space_member(space_addr(1), acct(5)), Ok(()));
    assert_eq!(m.member_spaces(acct(5), None), vec![space_addr(1), space_addr(0)]);
    assert_eq!(m.remove_space_member(acct(99), acct(5)), Err(MotherSpaceError::UnAuthorized));
    assert_eq!(m.remove_space_member(space_addr(1), acct(5)), Ok(()));
    assert_eq!(m.member_spaces(acct(5), None), vec![space_addr(0)]);
}

#[test]
fn launcher_registration_is_owner_only_and_unique() {
    let mut m = MotherSpace::new(code(9), acct(REG_OWNER));
    assert_eq!(m.register_plugin_launcher(acct(7), K1, acct(50)), Err(MotherSpaceError::CallerIsNotOwner));
    assert_eq!(m.register_plugin_launcher(acct(REG_OWNER), K1, acct(50)), Ok(0));
    assert_eq!(m.register_plugin_launcher(acct(REG_OWNER), K1, acct(51)), Err(MotherSpaceError::PluginIdExisted));
    assert_eq!(m.register_plugin_launcher(acct(REG_OWNER), K2, acct(52)), Ok(1));
    assert_eq!(m.plugins_count(), 2);
    assert_eq!(m.plugin_launchers(), vec![(K1, acct(50)), (K2, acct(52))]);
    assert_eq!(m.launcher_for(K2), Ok(acct(52)));
    assert_eq!(m.launcher_for(PluginId(*b"none")), Err(MotherSpaceError::PluginNotFound));
}

#[test]
fn space_code_upgrades() {
    let mut m = MotherSpace::new(code(9), acct(REG_OWNER));
    assert_eq!(m.latest_space_code(), Ok(code(9)));
    assert_eq!(m.upgrade_space_code(acct(7), code(10)), Err(MotherSpaceError::CallerIsNotOwner));
    assert_eq!(m.upgrade_space_code(acct(REG_OWNER), code(10)), Ok(()));
    assert_eq!(m.latest_space_code(), Ok(code(10)));
    assert_eq!(m.transfer_ownership(acct(REG_OWNER), acct(7)), Ok(()));
    assert_eq!(m.owner(), acct(7));
}

#[test]
fn plugin_code_upgrades_go_to_the_registered_launcher() {
    let mut m = MotherSpace::new(code(9), acct(REG_OWNER));
    let mut l = PluginLauncher::new(acct(ROOT), acct(REG_OWNER), code(20));
    assert_eq!(m.register_plugin_launcher(acct(REG_OWNER), K1, acct(50)), Ok(0));
    assert_eq!(m.plugin_upgrade_target(acct(7), K1), Err(MotherSpaceError::CallerIsNotOwner));
    assert_eq!(m.plugin_upgrade_target(acct(REG_OWNER), K2), Err(MotherSpaceError::PluginNotFound));
    assert_eq!(m.plugin_upgrade_target(acct(REG_OWNER), K1), Ok(acct(50)));
    assert_eq!(l.latest_plugin_code(), Ok(code(20)));
    assert_eq!(l.upgrade_plugin_code(acct(3), code(22)), Err(LauncherError::UnAuthorized));
    assert_eq!(l.upgrade_plugin_code(acct(ROOT), code(21)), Ok(2));
    assert_eq!(l.latest_plugin_code(), Ok(code(21)));
}

#[test]
fn deploy_request_uses_latest_code_and_next_index() {
    let mut m = MotherSpace::new(code(9), acct(REG_OWNER));
    let req = m.deploy_request(acct(7), None).unwrap();
    assert_eq!(req, DeployRequest { code: code(9), salt: 0, owner: acct(7) });
    assert!(m.deploy_new_space(acct(7), acct(ROOT), 0, info(), None, None, None, space_addr(0), &vec![]).is_ok());
    assert_eq!(m.upgrade_space_code(acct(REG_OWNER), code(10)), Ok(()));
    let req = m.deploy_request(acct(7), Some(acct(8))).unwrap();
    assert_eq!(req, DeployRequest { code: code(10), salt: 1, owner: acct(8) });
}
#[test]
fn launcher_salts_are_fresh() {
    let mut l = PluginLauncher::new(acct(ROOT), acct(REG_OWNER), code(20));
    let req = l.launch_request(acct(30), acct(50)).unwrap();
    assert_eq!(req, LaunchRequest { code: code(20), salt: 1, space_id: acct(30), launcher_id: acct(50) });
    assert_eq!(l.launch(None), Err(LauncherError::InstantiationFailed));
    assert_eq!(l.launches_count(), 0);
    assert_eq!(l.launch(Some(acct(60))), Ok(acct(60)));
    assert_eq!(l.launches_count(), 1);
    assert_eq!(l.launch_request(acct(30), acct(50)).unwrap().salt, 2);
    assert_eq!(l.upgrade_plugin_code(acct(9), code(21)), Err(LauncherError::UnAuthorized));
    assert_eq!(l.upgrade_plugin_code(acct(ROOT), code(21)), Ok(2));
    assert_eq!(l.launch_request(acct(30), acct(50)).unwrap().code, code(21));
    assert_eq!(l.motherspace_id(), acct(ROOT));
    assert_eq!(l.transfer_ownership(acct(9), acct(9)), Err(LauncherError::CallerIsNotOwner));
}

#[test]
fn attach_rejects_overlap_in_full() {
    let mut m = MotherSpace::new(code(9), acct(REG_OWNER));
    let (mut s, _) = m.deploy_new_space(acct(7), acct(ROOT), 0, info(), None, None, None, space_addr(0), &vec![]).unwrap();
    let k3 = PluginId(*b"flip");
    assert_eq!(s.attach_plugins(acct(7), vec![(K1, acct(60))]), Err(SpaceError::UnAuthorized));
    assert_eq!(s.attach_plugins(acct(ROOT), vec![(K1, acct(60)), (K2, acct(61))]), Ok(()));
    assert_eq!(
        s.attach_plugins(acct(ROOT), vec![(k3, acct(62)), (K2, acct(63))]),
        Err(SpaceError::DuplicatePlugin)
    );
    assert_eq!(s.plugin_ids(), vec![K1, K2]);
    assert_eq!(s.plugin_address(k3), Err(SpaceError::PluginNotFound));
    assert_eq!(s.plugin_address(K2), Ok(acct(61)));
}

#[test]
fn enable_and_disable_plugins() {
    let mut m = MotherSpace::new(code(9), acct(REG_OWNER));
    let (mut s, _) = m.deploy_new_space(acct(7), acct(ROOT), 0, info(), None, None, None, space_addr(0), &vec![]).unwrap();
    assert_eq!(s.attach_plugins(acct(ROOT), vec![(K1, acct(60)), (K2, acct(61))]), Ok(()));
    assert_eq!(s.disable_plugin(acct(9), K1), Err(SpaceError::CallerIsNotOwner));
    assert_eq!(s.disable_plugin(acct(7), PluginId(*b"none")), Err(SpaceError::PluginNotFound));
    assert_eq!(s.enable_plugin(acct(7), PluginId(*b"none")), Err(SpaceError::PluginNotFound));
    assert_eq!(s.disable_plugin(acct(7), K1), Ok(()));
    assert_eq!(s.disable_plugin(acct(7), K1), Ok(()));
    assert_eq!(s.disabled_plugin_ids, vec![K1]);
    let view = s.plugins(&vec![code(1), code(2)]);
    assert!(view[0].disabled);
    assert!(!view[1].disabled);
    assert_eq!(view[1].code_hash, code(2));
    assert_eq!(view[0].address, acct(60));
    assert_eq!(s.enable_plugin(acct(7), K1), Ok(()));
    assert!(s.disabled_plugin_ids.is_empty());
}

#[test]
fn install_into_existing_space() {
    let mut m = MotherSpace::new(code(9), acct(REG_OWNER));
    assert_eq!(m.register_plugin_launcher(acct(REG_OWNER), K1, acct(50)), Ok(0));
    let (mut s, _) = m.deploy_new_space(acct(7), acct(ROOT), 0, info(), None, None, None, space_addr(0), &vec![]).unwrap();
    let r = m.install_plugins(acct(7), space_addr(5), acct(7), &vec![K1], &vec![Some(acct(60))]);
    assert_eq!(r, Err(MotherSpaceError::SpaceNotFound));
    let r = m.install_plugins(acct(8), space_addr(0), s.owner(), &vec![K1], &vec![Some(acct(60))]);
    assert_eq!(r, Err(MotherSpaceError::UnAuthorized));
    let r = m.install_plugins(acct(7), space_addr(0), s.owner(), &vec![K1, K2], &vec![None]);
    assert_eq!(r, Err(MotherSpaceError::PluginLaunchFailed));
    let pairs = m.install_plugins(acct(7), space_addr(0), s.owner(), &vec![K1, K2], &vec![Some(acct(60))]).unwrap();
    assert_eq!(pairs, vec![(K1, acct(60))]);
    assert_eq!(s.attach_plugins(acct(ROOT), pairs), Ok(()));
    let again = m.install_plugins(acct(7), space_addr(0), s.owner(), &vec![K1], &vec![Some(acct(61))]).unwrap();
    assert_eq!(s.attach_plugins(acct(ROOT), again), Err(SpaceError::DuplicatePlugin));
    assert_eq!(s.plugin_ids(), vec![K1]);
}
#[test]
fn flipper_needs_active_member() {
    let mut m = MotherSpace::new(code(9), acct(REG_OWNER));
    let (mut s, _) = m.deploy_new_space(acct(7), acct(ROOT), 0, info(), None, None, None, space_addr(0), &vec![]).unwrap();
    let mut f = Flipper::new(space_addr(0), acct(50));
    assert!(!f.get());
    assert_eq!(f.flip(s.is_active_member(acct(5), 1)), Err(PluginError::NotActiveMember));
    assert!(!f.get());
    assert_eq!(f.flip(s.is_active_member(acct(7), 1)), Ok(()));
    assert!(f.get());
    assert_eq!(s.pay_to_join(acct(5), 2, None, 0), Ok(()));
    assert_eq!(f.flip(s.is_active_member(acct(5), 3)), Ok(()));
    assert!(!f.get());
    assert_eq!(f.space_id(), space_addr(0));
    assert_eq!(f.launcher_id(), acct(50));
}
#[test]
fn plugin_checks_ask_the_space() {
    let mut m = MotherSpace::new(code(9), acct(REG_OWNER));
    let (mut s, _) = m.deploy_new_space(acct(7), acct(ROOT), 0, info(), None, None, None, space_addr(0), &vec![]).unwrap();
    assert_eq!(only_space_owner(acct(7), s.owner()), Ok(()));
    assert_eq!(only_space_owner(acct(5), s.owner()), Err(PluginError::NotSpaceOwner));
    assert_eq!(only_active_member(s.is_active_member(acct(5), 1)), Err(PluginError::NotActiveMember));
    assert_eq!(s.grant_membership(acct(7), 1, acct(5), Some(10)), Ok(()));
    assert_eq!(only_active_member(s.is_active_member(acct(5), 10)), Ok(()));
    assert_eq!(only_active_member(s.is_active_member(acct(5), 11)), Err(PluginError::NotActiveMember));
}
#[test]
fn empty_code_logs_and_exhausted_salts() {
    let mut m = MotherSpace {
        owner: acct(REG_OWNER),
        space_codes: VersionedCodeLog::new(),
        spaces: vec![],
        member_links: vec![],
        launchers: vec![],
    };
    assert_eq!(m.latest_space_code(), Err(MotherSpaceError::NoCodeRegistered));
    let r = m.deploy_new_space(acct(7), acct(ROOT), 0, info(), None, None, None, space_addr(0), &vec![]);
    assert_eq!(r.err(), Some(MotherSpaceError::NoCodeRegistered));
    let mut empty = PluginLauncher {
        motherspace_id: acct(ROOT),
        owner: acct(REG_OWNER),
        plugin_codes: VersionedCodeLog::new(),
        launches_count: 0,
    };
    assert_eq!(empty.latest_plugin_code(), Err(LauncherError::NoCodeRegistered));
    assert_eq!(empty.launch_request(acct(30), acct(50)), Err(LauncherError::NoCodeRegistered));
    assert_eq!(empty.launch(Some(acct(60))), Err(LauncherError::NoCodeRegistered));
    let mut full = PluginLauncher::new(acct(ROOT), acct(REG_OWNER), code(20));
    full.launches_count = u32::MAX;
    assert_eq!(full.launch_request(acct(30), acct(50)), Err(LauncherError::CounterOverflow));
    assert_eq!(full.launch(Some(acct(60))), Err(LauncherError::CounterOverflow));
    assert_eq!(full.launches_count(), u32::MAX);
}
