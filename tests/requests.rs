use motherspace::{
    AccountId, ApprovalSubmissionResult, MemberStatus, Pricing, RegistrationType, Space, SpaceConfig,
    SpaceError, SpaceInfo,
};

fn acct(n: u8) -> AccountId {
    AccountId([n; 32])
}

fn request_space(pricing: Pricing) -> Space {
    let info = SpaceInfo { name: String::from("guild"), desc: None, logo: None };
    let cfg = SpaceConfig { registration: RegistrationType::RequestToJoin, pricing };
    Space::new(acct(1), acct(1), acct(2), info, Some(cfg), 0).unwrap()
}

const OWNER: u8 = 2;

#[test]
fn second_request_is_refused_while_pending() {
    let mut s = request_space(Pricing::OneTimePaid { price: 10 });
    assert_eq!(s.register_membership(acct(5), 1, None, 10), Ok(()));
    assert_eq!(s.pending_requests_count(), 1);
    assert_eq!(s.register_membership(acct(5), 2, None, 10), Err(SpaceError::PendingRequestExisted));
    assert_eq!(s.pending_requests_count(), 1);
    let req = s.pending_request_for(acct(9), Some(acct(5))).unwrap();
    assert_eq!(req.who, acct(5));
    assert_eq!(req.paid, 10);
    assert_eq!(req.requested_at, 1);
    assert_eq!(req.approved, None);
    assert_eq!(s.get_membership_request(acct(5)).unwrap().0, 1);
}

#[test]
fn register_checks_mode_membership_and_payment() {
    let mut s = request_space(Pricing::Subscription { price: 50, duration: 1 });
    assert_eq!(s.register_membership(acct(5), 1, None, 49), Err(SpaceError::InsufficientPayment));
    assert_eq!(s.pending_requests_count(), 0);
    assert_eq!(
        s.register_membership(acct(OWNER), 1, None, 50),
        Err(SpaceError::MemberExisted(acct(OWNER)))
    );
    let info = SpaceInfo { name: String::from("guild"), desc: None, logo: None };
    let mut p = Space::new(acct(1), acct(1), acct(2), info, None, 0).unwrap();
    assert_eq!(p.register_membership(acct(5), 1, None, 0), Err(SpaceError::RequestToJoinNotSupported));
}

#[test]
fn approval_grants_and_clears_queue() {
    let mut s = request_space(Pricing::Free);
    assert_eq!(s.register_membership(acct(5), 1, None, 0), Ok(()));
    let r = s.submit_request_approvals(acct(OWNER), 5, &vec![(acct(5), true)], &vec![true]);
    assert_eq!(r, Ok(ApprovalSubmissionResult { approved: 1, rejected: 0, not_found: 0 }));
    assert_eq!(s.member_status(acct(5), 5), MemberStatus::Active);
    assert_eq!(s.pending_requests_count(), 0);
    assert!(s.pending_request_for(acct(5), None).is_none());
    assert_eq!(s.requests[0].approved, Some(true));
    assert_eq!(s.members_count(), 2);
}

#[test]
fn approval_of_subscription_uses_its_lifetime() {
    let mut s = request_space(Pricing::Subscription { price: 50, duration: 30 });
    assert_eq!(s.register_membership(acct(5), 1, None, 60), Ok(()));
    let r = s.submit_request_approvals(acct(OWNER), 100, &vec![(acct(5), true)], &vec![true]);
    assert!(r.is_ok());
    assert_eq!(s.member_info(acct(5)).unwrap().next_renewal_at, Some(100 + 30 * 86400));
}

#[test]
fn rejection_refunds_once_and_keeps_non_member() {
    let mut s = request_space(Pricing::OneTimePaid { price: 10 });
    assert_eq!(s.register_membership(acct(5), 1, None, 10), Ok(()));
    let r = s.submit_request_approvals(acct(OWNER), 5, &vec![(acct(5), false)], &vec![true]);
    assert_eq!(r, Ok(ApprovalSubmissionResult { approved: 0, rejected: 1, not_found: 0 }));
    assert_eq!(s.member_status(acct(5), 5), MemberStatus::NonMember);
    assert_eq!(s.pending_requests_count(), 0);
    assert_eq!(s.requests[0].approved, Some(false));
    // nothing is left to refund a second time
    assert_eq!(s.cancel_request(acct(5), true), Err(SpaceError::RequestNotFound));
    let again = s.submit_request_approvals(acct(OWNER), 6, &vec![(acct(5), false)], &vec![true]);
    assert_eq!(again, Ok(ApprovalSubmissionResult { approved: 0, rejected: 0, not_found: 1 }));
    // a new request after the rejection is accepted
    assert_eq!(s.register_membership(acct(5), 7, None, 10), Ok(()));
    assert_eq!(s.get_membership_request(acct(5)).unwrap().0, 2);
}

#[test]
fn failed_refund_aborts_whole_batch() {
    let mut s = request_space(Pricing::Free);
    assert_eq!(s.register_membership(acct(5), 1, None, 0), Ok(()));
    assert_eq!(s.register_membership(acct(6), 1, None, 0), Ok(()));
    let batch = vec![(acct(5), true), (acct(6), false), (acct(7), true)];
    let r = s.submit_request_approvals(acct(OWNER), 5, &batch, &vec![true, false, true]);
    assert_eq!(r, Err(SpaceError::CannotRefundPayment(acct(6), 2)));
    assert_eq!(s.member_status(acct(5), 5), MemberStatus::NonMember);
    assert_eq!(s.members_count(), 1);
    assert_eq!(s.pending_requests_count(), 2);
    assert_eq!(s.requests[0].approved, None);
    let ok = s.submit_request_approvals(acct(OWNER), 5, &batch, &vec![true, true, true]);
    assert_eq!(ok, Ok(ApprovalSubmissionResult { approved: 1, rejected: 1, not_found: 1 }));
    assert_eq!(s.pending_requests_count(), 0);
}

#[test]
fn only_owner_decides() {
    let mut s = request_space(Pricing::Free);
    assert_eq!(s.register_membership(acct(5), 1, None, 0), Ok(()));
    let r = s.submit_request_approvals(acct(5), 2, &vec![(acct(5), true)], &vec![true]);
    assert_eq!(r, Err(SpaceError::CallerIsNotOwner));
    assert_eq!(s.pending_requests_count(), 1);
}

#[test]
fn approving_an_already_active_account_fails_the_batch() {
    let mut s = request_space(Pricing::Free);
    assert_eq!(s.register_membership(acct(5), 1, None, 0), Ok(()));
    assert_eq!(s.grant_membership(acct(OWNER), 2, acct(5), None), Ok(()));
    let r = s.submit_request_approvals(acct(OWNER), 3, &vec![(acct(5), true)], &vec![true]);
    assert_eq!(r, Err(SpaceError::MemberExisted(acct(5))));
    assert_eq!(s.pending_requests_count(), 1);
}

#[test]
fn cancel_refund_outcomes() {
    let mut s = request_space(Pricing::OneTimePaid { price: 10 });
    assert_eq!(s.cancel_request(acct(5), true), Err(SpaceError::RequestNotFound));
    assert_eq!(s.register_membership(acct(5), 1, None, 12), Ok(()));
    assert_eq!(s.cancel_request(acct(5), false), Err(SpaceError::CannotRefundPayment(acct(5), 1)));
    assert_eq!(s.pending_requests_count(), 1);
    assert_eq!(s.cancel_request(acct(5), true), Ok(()));
    assert_eq!(s.pending_requests_count(), 0);
    assert!(s.pending_request_for(acct(5), None).is_none());
}

#[test]
fn pending_queue_grows_to_one_more_than_the_limit() {
    let mut s = request_space(Pricing::Free);
    for n in 0..501u32 {
        let mut bytes = [0u8; 32];
        bytes[0] = 100;
        bytes[1..5].copy_from_slice(&n.to_le_bytes());
        assert_eq!(s.register_membership(AccountId(bytes), 1, None, 0), Ok(()));
    }
    assert_eq!(s.pending_requests_count(), 501);
    assert_eq!(s.register_membership(acct(7), 1, None, 0), Err(SpaceError::TooManyPendingRequests));
}

#[test]
fn pending_requests_pages() {
    let mut s = request_space(Pricing::Free);
    for n in 10u8..17 {
        assert_eq!(s.register_membership(acct(n), u64::from(n), None, 0), Ok(()));
    }
    let p = s.pending_requests(2, 3);
    assert_eq!(p.items.len(), 3);
    assert_eq!(p.items[0].who, acct(12));
    assert_eq!(p.items[2].requested_at, 14);
    assert!(p.has_next_page);
    assert_eq!(p.total, 7);
    let q = s.pending_requests(5, 3);
    assert_eq!(q.items.len(), 2);
    assert!(!q.has_next_page);
    assert_eq!(s.pending_requests(9, 3).items.len(), 0);
}

#[test]
fn repeated_rejection_refunds_once() {
    let mut s = request_space(Pricing::OneTimePaid { price: 10 });
    assert_eq!(s.register_membership(acct(5), 1, None, 10), Ok(()));
    let batch = vec![(acct(5), false), (acct(5), false)];
    assert_eq!(s.refund_plan(&batch), vec![Some((acct(5), 10)), None]);
    let r = s.submit_request_approvals(acct(OWNER), 5, &batch, &vec![true, false]);
    assert_eq!(r, Ok(ApprovalSubmissionResult { approved: 0, rejected: 1, not_found: 1 }));
    assert_eq!(s.pending_requests_count(), 0);
}

#[test]
fn approve_then_reject_grants_without_refund() {
    let mut s = request_space(Pricing::OneTimePaid { price: 10 });
    assert_eq!(s.register_membership(acct(5), 1, None, 10), Ok(()));
    assert_eq!(s.register_membership(acct(6), 1, None, 10), Ok(()));
    let batch = vec![(acct(5), true), (acct(5), false), (acct(6), false), (acct(7), false)];
    assert_eq!(s.refund_plan(&batch), vec![None, None, Some((acct(6), 10)), None]);
    assert_eq!(s.approved_accounts(&batch), vec![acct(5)]);
    let r = s.submit_request_approvals(acct(OWNER), 5, &batch, &vec![true, false, true, true]);
    assert_eq!(r, Ok(ApprovalSubmissionResult { approved: 1, rejected: 1, not_found: 2 }));
    assert_eq!(s.member_status(acct(5), 5), MemberStatus::Active);
    assert_eq!(s.requests[0].approved, Some(true));
    assert_eq!(s.member_status(acct(6), 5), MemberStatus::NonMember);
}
