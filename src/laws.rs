//! Properties that relate several operations of a space and of the registry.
use vstd::prelude::*;
use crate::ids::{AccountId, PluginId};
use crate::profile::{Pricing, SECS_PER_DAY, ttl_of};
use crate::space::{
    Members, MemberStatus, MembershipRequest, RequestId, Timestamp, ApprovalRun,
    ApprovalSubmissionResult, keys_of, lookup, status_in, grant_in, renewal_of, renewal_overflows,
    members_wf, leave_in, last_request_index, live_request_in, run_approvals, without_ids, kinds_of,
    lemma_lookup_at, lemma_grant_lookup, lemma_grant_wf, refund_of,
};
use crate::motherspace::{resolved, launcher_of, launched_pairs, spaces_of, link_of, linked_space};

verus! {

/// A successful grant makes the account active until its renewal time and
/// inactive from then on, as a function of the time alone; a grant without a
/// lifetime stays active. A new account gets one new ledger row, a returning
/// one none.
pub proof fn lemma_grant_then_lapse(ms: Members, who: AccountId, ttl: Option<u64>, now: Timestamp, later: Timestamp)
    requires
        members_wf(ms),
        grant_in(ms, who, ttl, now) is Ok,
    ensures
        ({
            let g = grant_in(ms, who, ttl, now)->Ok_0;
            &&& members_wf(g)
            &&& status_in(ms, who, now) == MemberStatus::NonMember ==> g.len() == ms.len() + 1
            &&& status_in(ms, who, now) != MemberStatus::NonMember ==> g.len() == ms.len()
            &&& ttl is None ==> status_in(g, who, later) == MemberStatus::Active
            &&& ttl is Some && later < now + ttl->Some_0 ==> status_in(g, who, later)
                == MemberStatus::Active
            &&& ttl is Some && later >= now + ttl->Some_0 && now + ttl->Some_0 > 0 ==> status_in(
                g,
                who,
                later,
            ) == MemberStatus::Inactive
        }),
{
    lemma_grant_wf(ms, who, ttl, now);
    lemma_grant_lookup(ms, who, ttl, now, who);
}

/// A one-time-paid membership never lapses: whatever the later time, the
/// member stays active.
pub proof fn lemma_one_time_paid_never_lapses(
    ms: Members,
    who: AccountId,
    price: u128,
    now: Timestamp,
    later: Timestamp,
)
    requires
        members_wf(ms),
        grant_in(ms, who, ttl_of(Pricing::OneTimePaid { price }), now) is Ok,
    ensures
        status_in(grant_in(ms, who, ttl_of(Pricing::OneTimePaid { price }), now)->Ok_0, who, later)
            == MemberStatus::Active,
{
    lemma_grant_lookup(ms, who, None, now, who);
}

/// A subscription of `duration` days granted at `now` renews at
/// `now + duration * 86400`: active strictly before, inactive from then on.
pub proof fn lemma_subscription_renewal(
    ms: Members,
    who: AccountId,
    price: u128,
    duration: u32,
    now: Timestamp,
    later: Timestamp,
)
    requires
        members_wf(ms),
        grant_in(ms, who, ttl_of(Pricing::Subscription { price, duration }), now) is Ok,
    ensures
        ({
            let g = grant_in(ms, who, ttl_of(Pricing::Subscription { price, duration }), now)->Ok_0;
            let renewal = now + duration * SECS_PER_DAY;
            &&& lookup(g, who) is Some
            &&& lookup(g, who)->Some_0.next_renewal_at == Some(renewal as u64)
            &&& later < renewal ==> status_in(g, who, later) == MemberStatus::Active
            &&& later >= renewal && renewal > 0 ==> status_in(g, who, later) == MemberStatus::Inactive
        }),
{
    let ttl = ttl_of(Pricing::Subscription { price, duration });
    assert(SECS_PER_DAY * duration as u64 <= u64::MAX) by (nonlinear_arith)
        requires
            duration <= u32::MAX,
    ;
    assert(ttl == Some((duration * SECS_PER_DAY) as u64)) by (nonlinear_arith)
        requires
            ttl == Some((SECS_PER_DAY * duration as u64) as u64),
    ;
    lemma_grant_lookup(ms, who, ttl, now, who);
}

/// An active member that leaves is marked as departed at every time, keeps
/// its ledger row, and can be granted again into the same row: the ledger
/// does not grow.
pub proof fn lemma_leave_then_regrant(
    ms: Members,
    a: AccountId,
    now: Timestamp,
    ttl: Option<u64>,
    later: Timestamp,
    t: Timestamp,
)
    requires
        members_wf(ms),
        status_in(ms, a, now) == MemberStatus::Active,
    ensures
        members_wf(leave_in(ms, a)),
        leave_in(ms, a).len() == ms.len(),
        status_in(leave_in(ms, a), a, t) == MemberStatus::Left,
        !renewal_overflows(ttl, later) ==> grant_in(leave_in(ms, a), a, ttl, later) is Ok
            && grant_in(leave_in(ms, a), a, ttl, later)->Ok_0.len() == ms.len(),
{
    let i = keys_of(ms).index_of(a);
    assert(keys_of(ms).contains(a));
    let l = leave_in(ms, a);
    assert(keys_of(l) =~= keys_of(ms));
    lemma_lookup_at(l, i);
}

/// The request at the end of a request list is the latest of its account.
proof fn lemma_last_request_push(reqs: Seq<MembershipRequest>, req: MembershipRequest)
    ensures
        last_request_index(reqs.push(req), req.who) == reqs.len(),
{
    assert(reqs.push(req).last() == req);
}

/// The latest request of `a` was made by `a`.
proof fn lemma_last_request_who(reqs: Seq<MembershipRequest>, a: AccountId)
    ensures
        -1 <= last_request_index(reqs, a) < reqs.len(),
        last_request_index(reqs, a) >= 0 ==> reqs[last_request_index(reqs, a)].who == a,
    decreases reqs.len(),
{
    if reqs.len() > 0 && reqs.last().who != a {
        lemma_last_request_who(reqs.drop_last(), a);
    }
}

/// Recording a decision on a request does not change whose latest request is
/// which.
proof fn lemma_last_request_decided(reqs: Seq<MembershipRequest>, k: int, d: MembershipRequest, a: AccountId)
    requires
        0 <= k < reqs.len(),
        d.who == reqs[k].who,
    ensures
        last_request_index(reqs.update(k, d), a) == last_request_index(reqs, a),
    decreases reqs.len(),
{
    let u = reqs.update(k, d);
    if k == reqs.len() - 1 {
        assert(u.drop_last() =~= reqs.drop_last());
    } else {
        assert(u.drop_last() =~= reqs.drop_last().update(k, d));
        if reqs.last().who != a {
            lemma_last_request_decided(reqs.drop_last(), k, d, a);
        }
    }
}

/// After a successful request, the account has a live request, so a second
/// request from it is refused until the first is decided or withdrawn.
pub proof fn lemma_request_blocks_second(
    reqs: Seq<MembershipRequest>,
    pending: Seq<RequestId>,
    reg: AccountId,
    paid: u128,
    now: Timestamp,
)
    requires
        reqs.len() < u32::MAX,
    ensures
        live_request_in(
            reqs.push(MembershipRequest { who: reg, paid, requested_at: now, approved: None }),
            pending.push((reqs.len() + 1) as u32),
            reg,
        ) == Some((reqs.len() + 1) as u32),
{
    let req = MembershipRequest { who: reg, paid, requested_at: now, approved: None };
    lemma_last_request_push(reqs, req);
    let p = pending.push((reqs.len() + 1) as u32);
    assert(p[pending.len() as int] == (reqs.len() + 1) as u32);
}

/// Deciding the live request of an account that never joined: an approval
/// grants it membership (active at `now` unless its lifetime is zero); a
/// rejection whose refund succeeded leaves the ledger as it was. Either way
/// the request leaves the queue and the account has no live request left, so
/// its escrow cannot be returned a second time.
pub proof fn lemma_single_decision(
    ms: Members,
    reqs: Seq<MembershipRequest>,
    pending: Seq<RequestId>,
    who: AccountId,
    approved: bool,
    ttl: Option<u64>,
    now: Timestamp,
)
    requires
        members_wf(ms),
        status_in(ms, who, now) == MemberStatus::NonMember,
        !renewal_overflows(ttl, now),
        ms.len() < u32::MAX,
        reqs.len() <= u32::MAX,
        live_request_in(reqs, pending, who) is Some,
    ensures
        ({
            let id = live_request_in(reqs, pending, who)->Some_0;
            let init: ApprovalRun = (
                ms,
                reqs,
                ApprovalSubmissionResult { approved: 0, rejected: 0, not_found: 0 },
                Seq::empty(),
            );
            let out = run_approvals(init, pending, seq![(who, approved)], seq![true], 1, ttl, now);
            &&& out is Ok
            &&& out->Ok_0.3 == seq![id]
            &&& !without_ids(pending, out->Ok_0.3).contains(id)
            &&& live_request_in(out->Ok_0.1, without_ids(pending, out->Ok_0.3), who) is None
            &&& approved ==> out->Ok_0.0 == grant_in(ms, who, ttl, now)->Ok_0 && out->Ok_0.2
                == ApprovalSubmissionResult { approved: 1, rejected: 0, not_found: 0 }
            &&& approved && (ttl is None || ttl->Some_0 > 0) ==> status_in(out->Ok_0.0, who, now)
                == MemberStatus::Active
            &&& !approved ==> out->Ok_0.0 == ms && out->Ok_0.2 == ApprovalSubmissionResult {
                approved: 0,
                rejected: 1,
                not_found: 0,
            }
            &&& !approved ==> status_in(out->Ok_0.0, who, now) == MemberStatus::NonMember
        }),
{
    let id = live_request_in(reqs, pending, who)->Some_0;
    lemma_last_request_who(reqs, who);
    let k = last_request_index(reqs, who);
    let init: ApprovalRun = (
        ms,
        reqs,
        ApprovalSubmissionResult { approved: 0, rejected: 0, not_found: 0 },
        Seq::empty(),
    );
    let entries = seq![(who, approved)];
    assert(run_approvals(init, pending, entries, seq![true], 0, ttl, now) == Ok::<ApprovalRun, crate::profile::SpaceError>(init));
    assert(entries[0] == (who, approved));
    assert(id - 1 == k);
    let req = reqs[id - 1];
    assert(req.who == who);
    let d = MembershipRequest {
        who: req.who,
        paid: req.paid,
        requested_at: req.requested_at,
        approved: Some(approved),
    };
    let decided = reqs.update(id - 1, d);
    lemma_last_request_decided(reqs, id - 1, d, who);
    let rest = without_ids(pending, seq![id]);
    let f = |x: RequestId| !seq![id].contains(x);
    assert(!f(id)) by {
        assert(seq![id][0] == id);
    }
    assert(!rest.contains(id)) by {
        if rest.contains(id) {
            let j = choose|j: int| 0 <= j < rest.len() && rest[j] == id;
            pending.lemma_filter_pred(f, j);
        }
    }
    assert(live_request_in(decided, rest, who) is None);
    let step = crate::space::approval_step(init, pending, entries[0], true, ttl, now);
    assert(run_approvals(init, pending, entries, seq![true], 1, ttl, now) == step);
    if approved {
        lemma_grant_lookup(ms, who, ttl, now, who);
        assert(grant_in(ms, who, ttl, now) is Ok);
        assert(step is Ok);
        assert(step->Ok_0.3 =~= seq![id]);
    } else {
        assert(step->Ok_0.3 =~= seq![id]);
    }
}

/// The kinds that a deployment attaches are exactly the requested kinds that
/// have a launcher, in request order: unregistered kinds are skipped.
pub proof fn lemma_attached_kinds(
    launchers: Seq<(PluginId, AccountId)>,
    kinds: Seq<PluginId>,
    launched: Seq<Option<AccountId>>,
)
    ensures
        kinds_of(launched_pairs(resolved(launchers, kinds), launched)) == kinds.filter(
            |k: PluginId| launcher_of(launchers, k) is Some,
        ),
        forall|i: int|
            0 <= i < resolved(launchers, kinds).len() ==> launcher_of(
                launchers,
                #[trigger] resolved(launchers, kinds)[i].0,
            ) == Some(resolved(launchers, kinds)[i].1),
    decreases kinds.len(),
{
    reveal(Seq::filter);
    let res = resolved(launchers, kinds);
    assert(kinds_of(launched_pairs(res, launched)) =~= kinds_of(res));
    if kinds.len() > 0 {
        lemma_attached_kinds(launchers, kinds.drop_last(), launched);
        let rest = resolved(launchers, kinds.drop_last());
        assert(kinds_of(launched_pairs(rest, launched)) =~= kinds_of(rest));
        match launcher_of(launchers, kinds.last()) {
            Some(l) => {
                assert(kinds_of(rest.push((kinds.last(), l))) =~= kinds_of(rest).push(kinds.last()));
            },
            None => {},
        }
    }
}

/// A batch that repeats a kind already attached breaks the uniqueness that
/// attaching requires, so the whole batch is refused.
pub proof fn lemma_overlapping_attach_rejected(
    existing: Seq<(PluginId, AccountId)>,
    batch: Seq<(PluginId, AccountId)>,
    i: int,
)
    requires
        0 <= i < batch.len(),
        kinds_of(existing).contains(batch[i].0),
    ensures
        !kinds_of(existing + batch).no_duplicates(),
{
    let j = kinds_of(existing).index_of(batch[i].0);
    let all = kinds_of(existing + batch);
    assert(all[j] == batch[i].0);
    assert(all[existing.len() + i] == batch[i].0);
}

/// Every space listed for an account comes from a link of that account.
proof fn lemma_spaces_of_linked(links: Seq<(AccountId, AccountId)>, who: AccountId, j: int)
    requires
        0 <= j < spaces_of(links, who).len(),
    ensures
        links.contains((who, spaces_of(links, who)[j])),
{
    let f = link_of(who);
    let kept = links.filter(f);
    assert(kept.len() == spaces_of(links, who).len());
    links.lemma_filter_pred(f, j);
    assert(kept.contains(kept[j]));
    links.lemma_filter_contains_rev(f, kept[j]);
    assert(kept[j] == (who, spaces_of(links, who)[j]));
}

/// The member index never lists a space twice for one account.
pub proof fn lemma_member_spaces_distinct(links: Seq<(AccountId, AccountId)>, who: AccountId)
    requires
        links.no_duplicates(),
    ensures
        spaces_of(links, who).no_duplicates(),
    decreases links.len(),
{
    reveal(Seq::filter);
    if links.len() > 0 {
        let rest = links.drop_last();
        assert(rest.no_duplicates());
        lemma_member_spaces_distinct(rest, who);
        let f = link_of(who);
        let last = links.last();
        if f(last) {
            let prev = spaces_of(rest, who);
            assert(spaces_of(links, who) =~= prev.push(last.1));
            assert forall|j: int| 0 <= j < prev.len() implies prev[j] != last.1 by {
                lemma_spaces_of_linked(rest, who, j);
                if prev[j] == last.1 {
                    let w = choose|w: int| 0 <= w < rest.len() && rest[w] == (who, prev[j]);
                    assert(links[w] == links[links.len() - 1]);
                }
            }
        } else {
            assert(spaces_of(links, who) =~= spaces_of(rest, who));
        }
    }
}

/// A batch decides each request at most once: the ids it decides never
/// repeat, so no escrow is refunded twice and no request both granted and
/// refunded, whatever entries the batch repeats.
pub proof fn lemma_each_request_decided_once(
    ms: Members,
    reqs: Seq<MembershipRequest>,
    pending: Seq<RequestId>,
    entries: Seq<(AccountId, bool)>,
    refunds_ok: Seq<bool>,
    n: int,
    ttl: Option<u64>,
    now: Timestamp,
)
    requires
        run_approvals(
            (ms, reqs, ApprovalSubmissionResult { approved: 0, rejected: 0, not_found: 0 }, Seq::empty()),
            pending,
            entries,
            refunds_ok,
            n,
            ttl,
            now,
        ) is Ok,
    ensures
        run_approvals(
            (ms, reqs, ApprovalSubmissionResult { approved: 0, rejected: 0, not_found: 0 }, Seq::empty()),
            pending,
            entries,
            refunds_ok,
            n,
            ttl,
            now,
        )->Ok_0.3.no_duplicates(),
    decreases n,
{
    let init: ApprovalRun = (
        ms,
        reqs,
        ApprovalSubmissionResult { approved: 0, rejected: 0, not_found: 0 },
        Seq::empty(),
    );
    if n > 0 {
        let prev = run_approvals(init, pending, entries, refunds_ok, n - 1, ttl, now);
        assert(prev is Ok);
        lemma_each_request_decided_once(ms, reqs, pending, entries, refunds_ok, n - 1, ttl, now);
        let st = prev->Ok_0;
        let out = run_approvals(init, pending, entries, refunds_ok, n, ttl, now)->Ok_0;
        assert(out.3 == st.3 || exists|id: RequestId| !st.3.contains(id) && out.3 == st.3.push(id));
        if out.3 != st.3 {
            let id = choose|id: RequestId| !st.3.contains(id) && out.3 == st.3.push(id);
            assert forall|a: int, b: int| 0 <= a < out.3.len() && 0 <= b < out.3.len() && a != b implies out.3[a]
                != out.3[b] by {
                if a == st.3.len() as int {
                    assert(out.3[b] == st.3[b]);
                } else if b == st.3.len() as int {
                    assert(out.3[a] == st.3[a]);
                }
            }
        }
    }
}

/// The refund plan of a batch returns at most one escrow per account, however
/// often the batch names it.
pub proof fn lemma_refund_plan_once(
    reqs: Seq<MembershipRequest>,
    pending: Seq<RequestId>,
    entries: Seq<(AccountId, bool)>,
    k1: int,
    k2: int,
)
    requires
        0 <= k1 < k2 < entries.len(),
        refund_of(reqs, pending, entries, k1) is Some,
        refund_of(reqs, pending, entries, k2) is Some,
    ensures
        entries[k1].0 != entries[k2].0,
{
    if entries[k1].0 == entries[k2].0 {
        assert(exists|j: int| 0 <= j < k2 && entries[j].0 == entries[k2].0);
    }
}

} // verus!
