use vstd::prelude::*;
use crate::ids::{AccountId, CodeRef, PluginId, contains_plugin, contains_u32};
use crate::profile::{
    SpaceError, SpaceInfo, SpaceConfig, RegistrationType, Pricing, MIN_NAME_LEN, MAX_NAME_LEN,
    byte_len, info_ok, info_error, ttl_of, payment_ok, normalized, str_byte_len, validate_info,
    is_valid_payment,
};

verus! {

/// A block time.
pub type Timestamp = u64;

/// An amount of the native currency.
pub type Balance = u128;

/// The id of a membership request; ids start at 1.
pub type RequestId = u32;

/// The pending queue accepts a new request while it holds at most this many.
pub const MAX_PENDING_REQUESTS: usize = 500;

/// Largest page that a listing returns.
pub const MAX_PER_PAGE: u32 = 50;

/// What a space keeps of one member.
///
/// `next_renewal_at`: `None` never expires, `Some(0)` marks a member who
/// left, `Some(t)` with `t > 0` expires at `t`.
#[derive(Clone, Debug, PartialEq, Eq)]
pub struct MemberInfo {
    pub name: Option<String>,
    pub next_renewal_at: Option<Timestamp>,
    pub joined_at: Timestamp,
}

/// A request to join, with the amount held in escrow.
#[derive(Clone, Copy, Debug, PartialEq, Eq)]
pub struct MembershipRequest {
    pub who: AccountId,
    pub paid: Balance,
    pub requested_at: Timestamp,
    pub approved: Option<bool>,
}

/// One page of a listing.
#[derive(Clone, Debug, PartialEq, Eq)]
pub struct Pagination<Item> {
    pub items: Vec<Item>,
    pub from: u32,
    pub per_page: u32,
    pub has_next_page: bool,
    pub total: u32,
}

/// A member with its position in the member index.
#[derive(Clone, Debug, PartialEq, Eq)]
pub struct MemberRecord {
    pub index: u32,
    pub account_id: AccountId,
    pub info: MemberInfo,
}

/// Counts of a batch of request decisions.
#[derive(Clone, Copy, Debug, PartialEq, Eq)]
pub struct ApprovalSubmissionResult {
    pub approved: u32,
    pub rejected: u32,
    pub not_found: u32,
}

/// The status of an account in a space, derived from its renewal time.
#[derive(Clone, Copy, Debug, PartialEq, Eq, Structural)]
pub enum MemberStatus {
    NonMember,
    Active,
    Inactive,
    Left,
}

/// An attached plugin as a space reports it.
#[derive(Clone, Copy, Debug, PartialEq, Eq)]
pub struct PluginInfo {
    pub id: PluginId,
    pub address: AccountId,
    pub disabled: bool,
    pub code_hash: CodeRef,
}

/// The members of a space, in the order they first joined.
pub type Members = Seq<(AccountId, MemberInfo)>;

/// The accounts of a member ledger, in index order.
pub open spec fn keys_of(ms: Members) -> Seq<AccountId> {
    ms.map_values(|m: (AccountId, MemberInfo)| m.0)
}

/// What a ledger holds for `a`.
pub open spec fn lookup(ms: Members, a: AccountId) -> Option<MemberInfo> {
    if keys_of(ms).contains(a) {
        Some(ms[keys_of(ms).index_of(a)].1)
    } else {
        None
    }
}

/// The status that a stored record gives at time `now`.
pub open spec fn status_of(info: Option<MemberInfo>, now: Timestamp) -> MemberStatus {
    match info {
        None => MemberStatus::NonMember,
        Some(i) => match i.next_renewal_at {
            None => MemberStatus::Active,
            Some(t) => if t > now {
                MemberStatus::Active
            } else if t > 0 {
                MemberStatus::Inactive
            } else {
                MemberStatus::Left
            },
        },
    }
}

/// The status of `a` in a ledger at time `now`.
pub open spec fn status_in(ms: Members, a: AccountId, now: Timestamp) -> MemberStatus {
    status_of(lookup(ms, a), now)
}

/// Whether granting with `ttl` at `now` overflows the renewal time.
pub open spec fn renewal_overflows(ttl: Option<u64>, now: Timestamp) -> bool {
    ttl matches Some(d) && now + d > u64::MAX
}

/// The renewal time of a membership granted with `ttl` at `now`.
pub open spec fn renewal_of(ttl: Option<u64>, now: Timestamp) -> Option<Timestamp> {
    match ttl {
        None => None,
        Some(d) => Some((now + d) as u64),
    }
}

/// Granting membership to `who` for `ttl` at time `now`: refused for an
/// active member; a new account gets a new ledger row at the end, an
/// inactive or departed one has its renewal time overwritten in place.
pub open spec fn grant_in(ms: Members, who: AccountId, ttl: Option<u64>, now: Timestamp) -> Result<
    Members,
    SpaceError,
> {
    let st = status_in(ms, who, now);
    if st == MemberStatus::Active {
        Err(SpaceError::MemberExisted(who))
    } else if renewal_overflows(ttl, now) {
        Err(SpaceError::CounterOverflow)
    } else if st == MemberStatus::NonMember {
        if ms.len() >= u32::MAX {
            Err(SpaceError::CounterOverflow)
        } else {
            Ok(
                ms.push(
                    (who, MemberInfo { name: None, next_renewal_at: renewal_of(ttl, now), joined_at: now }),
                ),
            )
        }
    } else {
        let i = keys_of(ms).index_of(who);
        Ok(
            ms.update(
                i,
                (
                    who,
                    MemberInfo {
                        name: ms[i].1.name,
                        next_renewal_at: renewal_of(ttl, now),
                        joined_at: ms[i].1.joined_at,
                    },
                ),
            ),
        )
    }
}

/// The index of the latest request made by `a`, or -1.
pub open spec fn last_request_index(reqs: Seq<MembershipRequest>, a: AccountId) -> int
    decreases reqs.len(),
{
    if reqs.len() == 0 {
        -1
    } else if reqs.last().who == a {
        reqs.len() - 1
    } else {
        last_request_index(reqs.drop_last(), a)
    }
}

/// The id of the live request of `a`: its latest request, while that one is
/// still in the pending queue.
pub open spec fn live_request_in(reqs: Seq<MembershipRequest>, pending: Seq<RequestId>, a: AccountId) -> Option<
    RequestId,
> {
    let k = last_request_index(reqs, a);
    if k >= 0 && pending.contains((k + 1) as u32) {
        Some((k + 1) as u32)
    } else {
        None
    }
}

/// A ledger with no repeated account and an index that fits in `u32`.
pub open spec fn members_wf(ms: Members) -> bool {
    &&& keys_of(ms).no_duplicates()
    &&& ms.len() <= u32::MAX
}

/// `x + 1`, saturating at `u32::MAX`.
pub open spec fn sat_inc(x: u32) -> u32 {
    if x < u32::MAX {
        (x + 1) as u32
    } else {
        x
    }
}

/// A community space: profile, configuration, member ledger, membership
/// requests and attached plugins.
///
/// Request `k` (from 1) is `requests[k - 1]`; the latest request of an account
/// is the one the account is looked up by.
pub struct Space {
    pub motherspace_id: AccountId,
    pub owner: AccountId,
    pub info: SpaceInfo,
    pub config: SpaceConfig,
    pub members: Vec<(AccountId, MemberInfo)>,
    pub requests: Vec<MembershipRequest>,
    pub pending_requests: Vec<RequestId>,
    pub plugins: Vec<(PluginId, AccountId)>,
    pub disabled_plugin_ids: Vec<PluginId>,
}

/// Two spaces with the same registry, owner, profile and configuration.
pub open spec fn same_settings(a: Space, b: Space) -> bool {
    &&& a.motherspace_id == b.motherspace_id
    &&& a.owner == b.owner
    &&& a.info == b.info
    &&& a.config == b.config
}

/// Two spaces with the same requests and pending queue.
pub open spec fn same_requests(a: Space, b: Space) -> bool {
    &&& a.requests@ == b.requests@
    &&& a.pending_requests@ == b.pending_requests@
}

/// Two spaces with the same attached and disabled plugins.
pub open spec fn same_plugins(a: Space, b: Space) -> bool {
    &&& a.plugins@ == b.plugins@
    &&& a.disabled_plugin_ids@ == b.disabled_plugin_ids@
}

/// Two spaces that hold the same state.
pub open spec fn unchanged(a: Space, b: Space) -> bool {
    &&& same_settings(a, b)
    &&& a.members@ == b.members@
    &&& same_requests(a, b)
    &&& same_plugins(a, b)
}

/// The index of `k` in a key sequence without repeats.
pub proof fn lemma_index_of_unique<K>(keys: Seq<K>, i: int)
    requires
        keys.no_duplicates(),
        0 <= i < keys.len(),
    ensures
        keys.contains(keys[i]),
        keys.index_of(keys[i]) == i,
{
    assert(keys.contains(keys[i]));
}

/// The record at position `i` is what the ledger holds for its account.
pub proof fn lemma_lookup_at(ms: Members, i: int)
    requires
        keys_of(ms).no_duplicates(),
        0 <= i < ms.len(),
    ensures
        lookup(ms, ms[i].0) == Some(ms[i].1),
{
    assert(keys_of(ms)[i] == ms[i].0);
    lemma_index_of_unique(keys_of(ms), i);
}

/// A granted ledger keeps its shape.
pub proof fn lemma_grant_wf(ms: Members, who: AccountId, ttl: Option<u64>, now: Timestamp)
    requires
        members_wf(ms),
        grant_in(ms, who, ttl, now) is Ok,
    ensures
        members_wf(grant_in(ms, who, ttl, now)->Ok_0),
{
    let r = grant_in(ms, who, ttl, now)->Ok_0;
    if status_in(ms, who, now) == MemberStatus::NonMember {
        assert(!keys_of(ms).contains(who));
        assert(keys_of(r) =~= keys_of(ms).push(who));
    } else {
        let i = keys_of(ms).index_of(who);
        assert(keys_of(ms).contains(who));
        assert(keys_of(r) =~= keys_of(ms));
    }
}

/// `who` holds the granted record, every other account keeps its record.
pub proof fn lemma_grant_lookup(ms: Members, who: AccountId, ttl: Option<u64>, now: Timestamp, a: AccountId)
    requires
        members_wf(ms),
        grant_in(ms, who, ttl, now) is Ok,
    ensures
        lookup(grant_in(ms, who, ttl, now)->Ok_0, a) == if a == who {
            Some(
                MemberInfo {
                    name: match lookup(ms, who) {
                        Some(m) => m.name,
                        None => None,
                    },
                    next_renewal_at: renewal_of(ttl, now),
                    joined_at: match lookup(ms, who) {
                        Some(m) => m.joined_at,
                        None => now,
                    },
                },
            )
        } else {
            lookup(ms, a)
        },
{
    let r = grant_in(ms, who, ttl, now)->Ok_0;
    lemma_grant_wf(ms, who, ttl, now);
    if status_in(ms, who, now) == MemberStatus::NonMember {
        assert(keys_of(r) =~= keys_of(ms).push(who));
        lemma_lookup_at(r, ms.len() as int);
        if a != who && keys_of(ms).contains(a) {
            let j = keys_of(ms).index_of(a);
            lemma_lookup_at(r, j);
            lemma_lookup_at(ms, j);
        } else if a != who {
            assert(!keys_of(r).contains(a)) by {
                if keys_of(r).contains(a) {
                    let j = keys_of(r).index_of(a);
                    assert(keys_of(ms)[j] == a);
                }
            }
        }
    } else {
        let i = keys_of(ms).index_of(who);
        assert(keys_of(ms).contains(who));
        assert(keys_of(r) =~= keys_of(ms));
        lemma_lookup_at(r, i);
        if a != who && keys_of(ms).contains(a) {
            let j = keys_of(ms).index_of(a);
            lemma_lookup_at(r, j);
            lemma_lookup_at(ms, j);
        }
    }
}

/// The kinds of an attachment list, in attachment order.
pub open spec fn kinds_of(ps: Seq<(PluginId, AccountId)>) -> Seq<PluginId> {
    ps.map_values(|p: (PluginId, AccountId)| p.0)
}

/// The outcome of a grant: the ledger that `grant_in` gives, or its error with
/// the ledger left as it was.
pub open spec fn grant_outcome(
    old_ms: Members,
    new_ms: Members,
    r: Result<(), SpaceError>,
    who: AccountId,
    ttl: Option<u64>,
    now: Timestamp,
) -> bool {
    match grant_in(old_ms, who, ttl, now) {
        Ok(ms) => r == Ok::<(), SpaceError>(()) && new_ms == ms,
        Err(e) => r == Err::<(), SpaceError>(e) && new_ms == old_ms,
    }
}

/// The ledger after the active member `a` leaves: its renewal time becomes 0.
pub open spec fn leave_in(ms: Members, a: AccountId) -> Members {
    let i = keys_of(ms).index_of(a);
    ms.update(
        i,
        (a, MemberInfo { name: ms[i].1.name, next_renewal_at: Some(0), joined_at: ms[i].1.joined_at }),
    )
}

/// The ledger after `a` sets its display name.
pub open spec fn rename_in(ms: Members, a: AccountId, name: Option<String>) -> Members {
    let i = keys_of(ms).index_of(a);
    ms.update(
        i,
        (a, MemberInfo { name: name, next_renewal_at: ms[i].1.next_renewal_at, joined_at: ms[i].1.joined_at }),
    )
}

/// Whether a status counts as having joined and not left.
pub open spec fn is_joined(st: MemberStatus) -> bool {
    st == MemberStatus::Active || st == MemberStatus::Inactive
}

/// The error that a display name gets, if any.
pub open spec fn display_name_error(name: Option<String>) -> Option<SpaceError> {
    match name {
        None => None,
        Some(n) => if byte_len(n@) < MIN_NAME_LEN {
            Some(SpaceError::DisplayNameTooShort)
        } else if byte_len(n@) > MAX_NAME_LEN {
            Some(SpaceError::DisplayNameTooLong)
        } else {
            None
        },
    }
}

fn copy_name(name: &Option<String>) -> (r: Option<String>)
    ensures
        r == *name,
{
    match name {
        Some(n) => Some(n.clone()),
        None => None,
    }
}

fn copy_info(info: &MemberInfo) -> (r: MemberInfo)
    ensures
        r == *info,
{
    MemberInfo {
        name: copy_name(&info.name),
        next_renewal_at: info.next_renewal_at,
        joined_at: info.joined_at,
    }
}

impl Space {
    /// The shape every space keeps: no account twice in the ledger, counters
    /// within `u32`, pending ids naming stored requests, no plugin kind twice.
    pub open spec fn wf(&self) -> bool {
        &&& members_wf(self.members@)
        &&& self.requests@.len() <= u32::MAX
        &&& self.pending_requests@.len() <= MAX_PENDING_REQUESTS + 1
        &&& forall|i: int|
            0 <= i < self.pending_requests@.len() ==> 1 <= #[trigger] self.pending_requests@[i]
                <= self.requests@.len()
        &&& kinds_of(self.plugins@).no_duplicates()
    }

    /// What the ledger holds for `a`.
    pub open spec fn member_of(&self, a: AccountId) -> Option<MemberInfo> {
        lookup(self.members@, a)
    }

    /// The status of `a` at time `now`.
    pub open spec fn status(&self, a: AccountId, now: Timestamp) -> MemberStatus {
        status_in(self.members@, a, now)
    }

    /// The id of the live request of `a`, if any.
    pub open spec fn live_request(&self, a: AccountId) -> Option<RequestId> {
        live_request_in(self.requests@, self.pending_requests@, a)
    }

    /// Creates a space on behalf of the registry `motherspace_id`. Only that
    /// registry may create it; the profile is checked, the configuration
    /// normalized, and the owner becomes the first member, never expiring.
    pub fn new(
        motherspace_id: AccountId,
        caller: AccountId,
        owner_id: AccountId,
        space_info: SpaceInfo,
        config: Option<SpaceConfig>,
        now: Timestamp,
    ) -> (r: Result<Space, SpaceError>)
        ensures
            caller != motherspace_id ==> r == Err::<Space, SpaceError>(SpaceError::UnAuthorized),
            caller == motherspace_id && !info_ok(space_info) ==> r == Err::<Space, SpaceError>(
                info_error(space_info),
            ),
            caller == motherspace_id && info_ok(space_info) ==> r is Ok,
            r matches Ok(s) ==> {
                &&& s.wf()
                &&& s.motherspace_id == motherspace_id
                &&& s.owner == owner_id
                &&& s.info == space_info
                &&& s.config == normalized(config)
                &&& s.members@ == seq![
                    (owner_id, MemberInfo { name: None, next_renewal_at: None, joined_at: now }),
                ]
                &&& s.requests@.len() == 0
                &&& s.pending_requests@.len() == 0
                &&& s.plugins@.len() == 0
                &&& s.disabled_plugin_ids@.len() == 0
            },
    {
        if caller != motherspace_id {
            return Err(SpaceError::UnAuthorized);
        }
        match validate_info(&space_info) {
            Err(e) => {
                return Err(e);
            },
            Ok(()) => {},
        }
        let mut members: Vec<(AccountId, MemberInfo)> = Vec::new();
        members.push((owner_id, MemberInfo { name: None, next_renewal_at: None, joined_at: now }));
        let s = Space {
            motherspace_id,
            owner: owner_id,
            info: space_info,
            config: SpaceConfig::normalize(config),
            members,
            requests: Vec::new(),
            pending_requests: Vec::new(),
            plugins: Vec::new(),
            disabled_plugin_ids: Vec::new(),
        };
        proof {
            assert(keys_of(s.members@) =~= seq![owner_id]);
            assert(kinds_of(s.plugins@) =~= Seq::<PluginId>::empty());
        }
        Ok(s)
    }

    /// The position of `a` in the member ledger.
    fn find_member(&self, a: AccountId) -> (r: Option<usize>)
        requires
            self.wf(),
        ensures
            r matches Some(i) ==> {
                &&& i < self.members@.len()
                &&& self.members@[i as int].0 == a
                &&& keys_of(self.members@).contains(a)
                &&& keys_of(self.members@).index_of(a) == i
                &&& self.member_of(a) == Some(self.members@[i as int].1)
            },
            r is None ==> !keys_of(self.members@).contains(a) && self.member_of(a) is None,
    {
        let mut i: usize = 0;
        while i < self.members.len()
            invariant
                self.wf(),
                0 <= i <= self.members@.len(),
                forall|j: int| 0 <= j < i ==> self.members@[j].0 != a,
            decreases self.members@.len() - i,
        {
            if self.members[i].0 == a {
                proof {
                    lemma_lookup_at(self.members@, i as int);
                    lemma_index_of_unique(keys_of(self.members@), i as int);
                }
                return Some(i);
            }
            i += 1;
        }
        proof {
            assert forall|j: int| 0 <= j < self.members@.len() implies keys_of(self.members@)[j] != a by {
                assert(keys_of(self.members@)[j] == self.members@[j].0);
            }
        }
        None
    }

    /// The status of `who` at time `now`; no state is written.
    pub fn member_status(&self, who: AccountId, now: Timestamp) -> (r: MemberStatus)
        requires
            self.wf(),
        ensures
            r == self.status(who, now),
    {
        match self.find_member(who) {
            None => MemberStatus::NonMember,
            Some(i) => match self.members[i].1.next_renewal_at {
                None => MemberStatus::Active,
                Some(t) => {
                    if t > now {
                        MemberStatus::Active
                    } else if t > 0 {
                        MemberStatus::Inactive
                    } else {
                        MemberStatus::Left
                    }
                },
            },
        }
    }

    /// Whether `who` is an active member at time `now`.
    pub fn is_active_member(&self, who: AccountId, now: Timestamp) -> (r: bool)
        requires
            self.wf(),
        ensures
            r == (self.status(who, now) == MemberStatus::Active),
    {
        self.member_status(who, now) == MemberStatus::Active
    }

    /// Whether `who` has joined and not left (active or expired).
    fn is_member(&self, who: AccountId, now: Timestamp) -> (r: bool)
        requires
            self.wf(),
        ensures
            r == is_joined(self.status(who, now)),
    {
        let st = self.member_status(who, now);
        st == MemberStatus::Active || st == MemberStatus::Inactive
    }

    /// What the ledger holds for `who`.
    pub fn member_info(&self, who: AccountId) -> (r: Option<MemberInfo>)
        requires
            self.wf(),
        ensures
            r == self.member_of(who),
    {
        match self.find_member(who) {
            None => None,
            Some(i) => Some(copy_info(&self.members[i].1)),
        }
    }

    /// The number of ledger rows ever created.
    pub fn members_count(&self) -> (r: u32)
        requires
            self.wf(),
        ensures
            r == self.members@.len(),
    {
        self.members.len() as u32
    }

    /// The registry that created this space.
    pub fn motherspace_id(&self) -> (r: AccountId)
        ensures
            r == self.motherspace_id,
    {
        self.motherspace_id
    }

    /// The owner of this space.
    pub fn owner(&self) -> (r: AccountId)
        ensures
            r == self.owner,
    {
        self.owner
    }

    /// The registration mode and pricing.
    pub fn config(&self) -> (r: SpaceConfig)
        ensures
            r == self.config,
    {
        self.config
    }

    /// Grants `who` membership for `ttl` from `now` (`None`: never expires).
    fn do_grant(&mut self, who: AccountId, ttl: Option<u64>, now: Timestamp) -> (r: Result<(), SpaceError>)
        requires
            old(self).wf(),
        ensures
            final(self).wf(),
            same_settings(*old(self), *final(self)),
            same_requests(*old(self), *final(self)),
            same_plugins(*old(self), *final(self)),
            grant_outcome(old(self).members@, final(self).members@, r, who, ttl, now),
    {
        let st = self.member_status(who, now);
        if st == MemberStatus::Active {
            return Err(SpaceError::MemberExisted(who));
        }
        let next_renewal_at = match ttl {
            None => None,
            Some(d) => match now.checked_add(d) {
                None => {
                    return Err(SpaceError::CounterOverflow);
                },
                Some(t) => Some(t),
            },
        };
        proof {
            assert(next_renewal_at == renewal_of(ttl, now));
        }
        match self.find_member(who) {
            None => {
                if self.members.len() >= u32::MAX as usize {
                    return Err(SpaceError::CounterOverflow);
                }
                self.members.push((who, MemberInfo { name: None, next_renewal_at, joined_at: now }));
            },
            Some(i) => {
                let name = copy_name(&self.members[i].1.name);
                let joined_at = self.members[i].1.joined_at;
                self.members[i] = (who, MemberInfo { name, next_renewal_at, joined_at });
            },
        }
        proof {
            lemma_grant_wf(old(self).members@, who, ttl, now);
        }
        Ok(())
    }

    /// Owner-only: grants `who` membership for `ttl` from `now`. The caller is
    /// expected to have the registry add this space to the account's index
    /// when this succeeds.
    pub fn grant_membership(&mut self, caller: AccountId, now: Timestamp, who: AccountId, ttl: Option<u64>) -> (r:
        Result<(), SpaceError>)
        requires
            old(self).wf(),
        ensures
            final(self).wf(),
            same_settings(*old(self), *final(self)),
            same_requests(*old(self), *final(self)),
            same_plugins(*old(self), *final(self)),
            caller != old(self).owner ==> r == Err::<(), SpaceError>(SpaceError::CallerIsNotOwner)
                && final(self).members@ == old(self).members@,
            caller == old(self).owner ==> grant_outcome(
                old(self).members@,
                final(self).members@,
                r,
                who,
                ttl,
                now,
            ),
    {
        if caller != self.owner {
            return Err(SpaceError::CallerIsNotOwner);
        }
        self.do_grant(who, ttl, now)
    }

    /// Joins `who` (the caller when `None`) by paying `paid` into a
    /// pay-to-join space; subscriptions expire after their duration.
    pub fn pay_to_join(&mut self, caller: AccountId, now: Timestamp, who: Option<AccountId>, paid: Balance) -> (r:
        Result<(), SpaceError>)
        requires
            old(self).wf(),
        ensures
            final(self).wf(),
            same_settings(*old(self), *final(self)),
            same_requests(*old(self), *final(self)),
            same_plugins(*old(self), *final(self)),
            ({
                let reg = match who {
                    Some(w) => w,
                    None => caller,
                };
                if old(self).config.registration != RegistrationType::PayToJoin {
                    r == Err::<(), SpaceError>(SpaceError::PayToJoinNotSupported) && final(self).members@
                        == old(self).members@
                } else if is_joined(old(self).status(reg, now)) {
                    r == Err::<(), SpaceError>(SpaceError::MemberExisted(reg)) && final(self).members@
                        == old(self).members@
                } else if !payment_ok(old(self).config.pricing, paid) {
                    r == Err::<(), SpaceError>(SpaceError::InsufficientPayment) && final(self).members@
                        == old(self).members@
                } else {
                    grant_outcome(
                        old(self).members@,
                        final(self).members@,
                        r,
                        reg,
                        ttl_of(old(self).config.pricing),
                        now,
                    )
                }
            }),
    {
        if self.config.registration != RegistrationType::PayToJoin {
            return Err(SpaceError::PayToJoinNotSupported);
        }
        let registrant = match who {
            Some(w) => w,
            None => caller,
        };
        if self.is_member(registrant, now) {
            return Err(SpaceError::MemberExisted(registrant));
        }
        if !is_valid_payment(self.config.pricing, paid) {
            return Err(SpaceError::InsufficientPayment);
        }
        let ttl = self.config.ttl();
        self.do_grant(registrant, ttl, now)
    }

    /// The caller leaves: only an active member other than the owner may. Its
    /// renewal time becomes 0. The caller is expected to have the registry
    /// drop this space from the account's index when this succeeds.
    pub fn leave(&mut self, caller: AccountId, now: Timestamp) -> (r: Result<(), SpaceError>)
        requires
            old(self).wf(),
        ensures
            final(self).wf(),
            same_settings(*old(self), *final(self)),
            same_requests(*old(self), *final(self)),
            same_plugins(*old(self), *final(self)),
            caller == old(self).owner ==> r == Err::<(), SpaceError>(SpaceError::OwnerCannotLeave)
                && final(self).members@ == old(self).members@,
            caller != old(self).owner && old(self).status(caller, now) != MemberStatus::Active ==> r
                == Err::<(), SpaceError>(SpaceError::NotActiveMember) && final(self).members@
                == old(self).members@,
            caller != old(self).owner && old(self).status(caller, now) == MemberStatus::Active ==> r
                is Ok && final(self).members@ == leave_in(old(self).members@, caller),
    {
        if caller == self.owner {
            return Err(SpaceError::OwnerCannotLeave);
        }
        match self.find_member(caller) {
            None => Err(SpaceError::NotActiveMember),
            Some(i) => {
                if self.member_status(caller, now) != MemberStatus::Active {
                    return Err(SpaceError::NotActiveMember);
                }
                let name = copy_name(&self.members[i].1.name);
                let joined_at = self.members[i].1.joined_at;
                self.members[i] = (caller, MemberInfo { name, next_renewal_at: Some(0), joined_at });
                proof {
                    assert(keys_of(self.members@) =~= keys_of(old(self).members@));
                }
                Ok(())
            },
        }
    }

    /// The caller, a member that has not left, sets its display name (3 to 30
    /// bytes when given).
    pub fn update_member_info(&mut self, caller: AccountId, now: Timestamp, name: Option<String>) -> (r: Result<
        (),
        SpaceError,
    >)
        requires
            old(self).wf(),
        ensures
            final(self).wf(),
            same_settings(*old(self), *final(self)),
            same_requests(*old(self), *final(self)),
            same_plugins(*old(self), *final(self)),
            !is_joined(old(self).status(caller, now)) ==> r == Err::<(), SpaceError>(
                SpaceError::NotActiveMember,
            ) && final(self).members@ == old(self).members@,
            is_joined(old(self).status(caller, now)) && display_name_error(name) is Some ==> r
                == Err::<(), SpaceError>(display_name_error(name)->Some_0) && final(self).members@
                == old(self).members@,
            is_joined(old(self).status(caller, now)) && display_name_error(name) is None ==> r is Ok
                && final(self).members@ == rename_in(old(self).members@, caller, name),
    {
        if !self.is_member(caller, now) {
            return Err(SpaceError::NotActiveMember);
        }
        match &name {
            Some(n) => {
                let len = str_byte_len(n);
                if len < MIN_NAME_LEN {
                    return Err(SpaceError::DisplayNameTooShort);
                }
                if len > MAX_NAME_LEN {
                    return Err(SpaceError::DisplayNameTooLong);
                }
            },
            None => {},
        }
        match self.find_member(caller) {
            None => Err(SpaceError::NotActiveMember),
            Some(i) => {
                let next_renewal_at = self.members[i].1.next_renewal_at;
                let joined_at = self.members[i].1.joined_at;
                self.members[i] = (caller, MemberInfo { name, next_renewal_at, joined_at });
                proof {
                    assert(keys_of(self.members@) =~= keys_of(old(self).members@));
                }
                Ok(())
            },
        }
    }
}

/// A batch of request decisions part way through: the ledger, the requests,
/// the counts so far and the ids of the requests decided.
pub type ApprovalRun = (Members, Seq<MembershipRequest>, ApprovalSubmissionResult, Seq<RequestId>);

/// Decides one entry `(who, approved)` of a batch. Without a live request, or
/// when that request was already decided earlier in the batch, it counts as
/// not found; an approval grants membership with `ttl`; a rejection needs its
/// refund to have succeeded (`refund_ok`), else the batch fails. So each
/// request is granted or refunded at most once per batch.
pub open spec fn approval_step(
    st: ApprovalRun,
    pending: Seq<RequestId>,
    entry: (AccountId, bool),
    refund_ok: bool,
    ttl: Option<u64>,
    now: Timestamp,
) -> Result<ApprovalRun, SpaceError> {
    let ms = st.0;
    let reqs = st.1;
    let c = st.2;
    let sub = st.3;
    let found = match live_request_in(reqs, pending, entry.0) {
        Some(id) => if sub.contains(id) {
            None
        } else {
            Some(id)
        },
        None => None,
    };
    match found {
        None => Ok(
            (
                ms,
                reqs,
                ApprovalSubmissionResult {
                    approved: c.approved,
                    rejected: c.rejected,
                    not_found: sat_inc(c.not_found),
                },
                sub,
            ),
        ),
        Some(id) => {
            let req = reqs[id - 1];
            let decided = reqs.update(
                id - 1,
                MembershipRequest {
                    who: req.who,
                    paid: req.paid,
                    requested_at: req.requested_at,
                    approved: Some(entry.1),
                },
            );
            if entry.1 {
                match grant_in(ms, req.who, ttl, now) {
                    Err(e) => Err(e),
                    Ok(granted) => Ok(
                        (
                            granted,
                            decided,
                            ApprovalSubmissionResult {
                                approved: sat_inc(c.approved),
                                rejected: c.rejected,
                                not_found: c.not_found,
                            },
                            sub.push(id),
                        ),
                    ),
                }
            } else if refund_ok {
                Ok(
                    (
                        ms,
                        decided,
                        ApprovalSubmissionResult {
                            approved: c.approved,
                            rejected: sat_inc(c.rejected),
                            not_found: c.not_found,
                        },
                        sub.push(id),
                    ),
                )
            } else {
                Err(SpaceError::CannotRefundPayment(req.who, id))
            }
        },
    }
}

/// The first `n` entries of a batch decided in order; the first error ends it.
pub open spec fn run_approvals(
    init: ApprovalRun,
    pending: Seq<RequestId>,
    entries: Seq<(AccountId, bool)>,
    refunds_ok: Seq<bool>,
    n: int,
    ttl: Option<u64>,
    now: Timestamp,
) -> Result<ApprovalRun, SpaceError>
    decreases n,
{
    if n <= 0 {
        Ok(init)
    } else {
        match run_approvals(init, pending, entries, refunds_ok, n - 1, ttl, now) {
            Err(e) => Err(e),
            Ok(st) => approval_step(st, pending, entries[n - 1], refunds_ok[n - 1], ttl, now),
        }
    }
}

/// Once a batch has failed, later entries do not change its outcome.
proof fn lemma_run_error_sticks(
    init: ApprovalRun,
    pending: Seq<RequestId>,
    entries: Seq<(AccountId, bool)>,
    refunds_ok: Seq<bool>,
    m: int,
    n: int,
    ttl: Option<u64>,
    now: Timestamp,
)
    requires
        m <= n,
        run_approvals(init, pending, entries, refunds_ok, m, ttl, now) is Err,
    ensures
        run_approvals(init, pending, entries, refunds_ok, n, ttl, now) == run_approvals(
            init,
            pending,
            entries,
            refunds_ok,
            m,
            ttl,
            now,
        ),
    decreases n - m,
{
    if m < n {
        lemma_run_error_sticks(init, pending, entries, refunds_ok, m, n - 1, ttl, now);
    }
}

/// The live request that entry `k` of a batch decides: the account's live
/// request, unless an earlier entry of the batch is for the same account.
pub open spec fn decided_by(
    reqs: Seq<MembershipRequest>,
    pending: Seq<RequestId>,
    entries: Seq<(AccountId, bool)>,
    k: int,
) -> Option<RequestId> {
    if exists|j: int| 0 <= j < k && entries[j].0 == entries[k].0 {
        None
    } else {
        live_request_in(reqs, pending, entries[k].0)
    }
}

/// The escrow that entry `k` of a batch returns: a rejection of a request that
/// this entry decides returns that request's payment to its author.
pub open spec fn refund_of(
    reqs: Seq<MembershipRequest>,
    pending: Seq<RequestId>,
    entries: Seq<(AccountId, bool)>,
    k: int,
) -> Option<(AccountId, Balance)> {
    match decided_by(reqs, pending, entries, k) {
        Some(id) => if !entries[k].1 {
            Some((reqs[id - 1].who, reqs[id - 1].paid))
        } else {
            None
        },
        None => None,
    }
}

/// The accounts that the first `n` entries of a batch approve, in order.
pub open spec fn approved_accounts(
    reqs: Seq<MembershipRequest>,
    pending: Seq<RequestId>,
    entries: Seq<(AccountId, bool)>,
    n: int,
) -> Seq<AccountId>
    decreases n,
{
    if n <= 0 {
        Seq::empty()
    } else {
        let prev = approved_accounts(reqs, pending, entries, n - 1);
        if entries[n - 1].1 && decided_by(reqs, pending, entries, n - 1) is Some {
            prev.push(entries[n - 1].0)
        } else {
            prev
        }
    }
}

/// Whether an entry before `k` is for the same account as entry `k`.
fn repeats_earlier(entries: &Vec<(AccountId, bool)>, k: usize) -> (r: bool)
    requires
        k < entries@.len(),
    ensures
        r == exists|j: int| 0 <= j < k && entries@[j].0 == entries@[k as int].0,
{
    let mut j: usize = 0;
    while j < k
        invariant
            0 <= j <= k,
            k < entries@.len(),
            forall|i: int| 0 <= i < j ==> entries@[i].0 != entries@[k as int].0,
        decreases k - j,
    {
        if entries[j].0 == entries[k].0 {
            return true;
        }
        j += 1;
    }
    false
}

/// The queue without the ids in `done`, in order.
pub open spec fn without_ids(pending: Seq<RequestId>, done: Seq<RequestId>) -> Seq<RequestId> {
    pending.filter(|x: RequestId| !done.contains(x))
}

/// The end of a page that starts at `from` with at most `per_page` items (at
/// most `MAX_PER_PAGE`) out of `total`.
pub open spec fn page_end(from: u32, per_page: u32, total: int) -> int {
    let pp = if per_page < MAX_PER_PAGE { per_page as int } else { MAX_PER_PAGE as int };
    if from + pp < total { from + pp } else { total }
}

/// Whether items remain after the page that starts at `from`.
pub open spec fn page_has_next(from: u32, per_page: u32, total: int) -> bool {
    let pp = if per_page < MAX_PER_PAGE { per_page as int } else { MAX_PER_PAGE as int };
    from + pp < total
}

/// The items of the page that starts at `from` over `all`.
pub open spec fn page_of<T>(all: Seq<T>, from: u32, per_page: u32) -> Seq<T> {
    if from < page_end(from, per_page, all.len() as int) {
        all.subrange(from as int, page_end(from, per_page, all.len() as int))
    } else {
        Seq::empty()
    }
}

fn copy_members(v: &Vec<(AccountId, MemberInfo)>) -> (r: Vec<(AccountId, MemberInfo)>)
    ensures
        r@ == v@,
{
    let mut out: Vec<(AccountId, MemberInfo)> = Vec::new();
    let mut i: usize = 0;
    while i < v.len()
        invariant
            0 <= i <= v@.len(),
            out@ == v@.take(i as int),
        decreases v@.len() - i,
    {
        out.push((v[i].0, copy_info(&v[i].1)));
        proof {
            assert(v@.take(i + 1) =~= v@.take(i as int).push(v@[i as int]));
        }
        i += 1;
    }
    proof {
        assert(v@.take(v@.len() as int) =~= v@);
    }
    out
}

fn copy_requests(v: &Vec<MembershipRequest>) -> (r: Vec<MembershipRequest>)
    ensures
        r@ == v@,
{
    let mut out: Vec<MembershipRequest> = Vec::new();
    let mut i: usize = 0;
    while i < v.len()
        invariant
            0 <= i <= v@.len(),
            out@ == v@.take(i as int),
        decreases v@.len() - i,
    {
        out.push(v[i]);
        proof {
            assert(v@.take(i + 1) =~= v@.take(i as int).push(v@[i as int]));
        }
        i += 1;
    }
    proof {
        assert(v@.take(v@.len() as int) =~= v@);
    }
    out
}

/// `v` without the ids in `done`, in order.
fn remove_ids(v: &Vec<RequestId>, done: &Vec<RequestId>) -> (r: Vec<RequestId>)
    ensures
        r@ == without_ids(v@, done@),
{
    let mut out: Vec<RequestId> = Vec::new();
    let mut i: usize = 0;
    while i < v.len()
        invariant
            0 <= i <= v@.len(),
            out@ == without_ids(v@.take(i as int), done@),
        decreases v@.len() - i,
    {
        proof {
            reveal(Seq::filter);
            assert(v@.take(i + 1).drop_last() =~= v@.take(i as int));
        }
        if !contains_u32(done, v[i]) {
            out.push(v[i]);
        }
        i += 1;
    }
    proof {
        assert(v@.take(v@.len() as int) =~= v@);
    }
    out
}

/// Filtering keeps only elements of the filtered sequence.
proof fn lemma_without_ids_subset(v: Seq<RequestId>, done: Seq<RequestId>)
    ensures
        forall|k: int|
            0 <= k < without_ids(v, done).len() ==> v.contains(#[trigger] without_ids(v, done)[k]),
{
    let f = |x: RequestId| !done.contains(x);
    assert forall|k: int| 0 <= k < without_ids(v, done).len() implies v.contains(
        #[trigger] without_ids(v, done)[k],
    ) by {
        v.lemma_filter_contains_rev(f, without_ids(v, done)[k]);
    }
}

impl Space {
    /// The index of the latest request made by `a`.
    fn latest_request_index(&self, a: AccountId) -> (r: Option<usize>)
        requires
            self.wf(),
        ensures
            r matches Some(k) ==> k < self.requests@.len() && k as int == last_request_index(
                self.requests@,
                a,
            ),
            r is None ==> last_request_index(self.requests@, a) == -1,
    {
        let mut i: usize = self.requests.len();
        proof {
            assert(self.requests@.take(i as int) =~= self.requests@);
        }
        while i > 0
            invariant
                i <= self.requests@.len(),
                last_request_index(self.requests@, a) == last_request_index(
                    self.requests@.take(i as int),
                    a,
                ),
            decreases i,
        {
            let ghost t = self.requests@.take(i as int);
            proof {
                assert(t.last() == self.requests@[i - 1]);
                assert(t.drop_last() =~= self.requests@.take(i - 1));
            }
            if self.requests[i - 1].who == a {
                return Some(i - 1);
            }
            i -= 1;
        }
        None
    }

    /// The live request of `who` with its id.
    pub fn get_membership_request(&self, who: AccountId) -> (r: Option<(RequestId, MembershipRequest)>)
        requires
            self.wf(),
        ensures
            r == match self.live_request(who) {
                None => None,
                Some(id) => Some((id, self.requests@[id - 1])),
            },
    {
        match self.latest_request_index(who) {
            None => None,
            Some(k) => {
                let id = (k + 1) as u32;
                if contains_u32(&self.pending_requests, id) {
                    Some((id, self.requests[k]))
                } else {
                    None
                }
            },
        }
    }

    /// The live request of `who` (the caller when `None`).
    pub fn pending_request_for(&self, caller: AccountId, who: Option<AccountId>) -> (r: Option<
        MembershipRequest,
    >)
        requires
            self.wf(),
        ensures
            ({
                let a = match who {
                    Some(w) => w,
                    None => caller,
                };
                r == match self.live_request(a) {
                    None => None,
                    Some(id) => Some(self.requests@[id - 1]),
                }
            }),
    {
        let a = match who {
            Some(w) => w,
            None => caller,
        };
        match self.get_membership_request(a) {
            None => None,
            Some((_, req)) => Some(req),
        }
    }

    /// The number of pending requests.
    pub fn pending_requests_count(&self) -> (r: u64)
        ensures
            r == self.pending_requests@.len(),
    {
        self.pending_requests.len() as u64
    }

    /// Requests to join `who` (the caller when `None`) into a request-to-join
    /// space, holding `paid` in escrow until the owner decides.
    pub fn register_membership(&mut self, caller: AccountId, now: Timestamp, who: Option<AccountId>, paid: Balance) -> (r:
        Result<(), SpaceError>)
        requires
            old(self).wf(),
        ensures
            final(self).wf(),
            same_settings(*old(self), *final(self)),
            same_plugins(*old(self), *final(self)),
            final(self).members@ == old(self).members@,
            ({
                let reg = match who {
                    Some(w) => w,
                    None => caller,
                };
                let e = if old(self).config.registration != RegistrationType::RequestToJoin {
                    Some(SpaceError::RequestToJoinNotSupported)
                } else if is_joined(old(self).status(reg, now)) {
                    Some(SpaceError::MemberExisted(reg))
                } else if old(self).live_request(reg) is Some {
                    Some(SpaceError::PendingRequestExisted)
                } else if old(self).pending_requests@.len() > MAX_PENDING_REQUESTS {
                    Some(SpaceError::TooManyPendingRequests)
                } else if old(self).requests@.len() >= u32::MAX {
                    Some(SpaceError::CounterOverflow)
                } else if !payment_ok(old(self).config.pricing, paid) {
                    Some(SpaceError::InsufficientPayment)
                } else {
                    None
                };
                match e {
                    Some(err) => r == Err::<(), SpaceError>(err) && same_requests(*old(self), *final(self)),
                    None => {
                        &&& r is Ok
                        &&& final(self).requests@ == old(self).requests@.push(
                            MembershipRequest { who: reg, paid, requested_at: now, approved: None },
                        )
                        &&& final(self).pending_requests@ == old(self).pending_requests@.push(
                            (old(self).requests@.len() + 1) as u32,
                        )
                    },
                }
            }),
    {
        if self.config.registration != RegistrationType::RequestToJoin {
            return Err(SpaceError::RequestToJoinNotSupported);
        }
        let registrant = match who {
            Some(w) => w,
            None => caller,
        };
        if self.is_member(registrant, now) {
            return Err(SpaceError::MemberExisted(registrant));
        }
        if self.get_membership_request(registrant).is_some() {
            return Err(SpaceError::PendingRequestExisted);
        }
        if self.pending_requests.len() > MAX_PENDING_REQUESTS {
            return Err(SpaceError::TooManyPendingRequests);
        }
        if self.requests.len() >= u32::MAX as usize {
            return Err(SpaceError::CounterOverflow);
        }
        if !is_valid_payment(self.config.pricing, paid) {
            return Err(SpaceError::InsufficientPayment);
        }
        let next_id = (self.requests.len() + 1) as u32;
        self.requests.push(MembershipRequest { who: registrant, paid, requested_at: now, approved: None });
        self.pending_requests.push(next_id);
        Ok(())
    }

    /// The caller withdraws its live request. `refund_ok` is the outcome of
    /// returning the escrow to the caller; when it failed the request stays
    /// pending.
    pub fn cancel_request(&mut self, caller: AccountId, refund_ok: bool) -> (r: Result<(), SpaceError>)
        requires
            old(self).wf(),
        ensures
            final(self).wf(),
            same_settings(*old(self), *final(self)),
            same_plugins(*old(self), *final(self)),
            final(self).members@ == old(self).members@,
            final(self).requests@ == old(self).requests@,
            old(self).live_request(caller) is None ==> r == Err::<(), SpaceError>(
                SpaceError::RequestNotFound,
            ) && final(self).pending_requests@ == old(self).pending_requests@,
            old(self).live_request(caller) matches Some(id) ==> {
                if refund_ok {
                    r is Ok && final(self).pending_requests@ == without_ids(
                        old(self).pending_requests@,
                        seq![id],
                    )
                } else {
                    r == Err::<(), SpaceError>(
                        SpaceError::CannotRefundPayment(old(self).requests@[id - 1].who, id),
                    ) && final(self).pending_requests@ == old(self).pending_requests@
                }
            },
    {
        match self.get_membership_request(caller) {
            None => Err(SpaceError::RequestNotFound),
            Some((id, req)) => {
                if !refund_ok {
                    return Err(SpaceError::CannotRefundPayment(req.who, id));
                }
                let mut done: Vec<RequestId> = Vec::new();
                done.push(id);
                proof {
                    assert(done@ =~= seq![id]);
                }
                let rest = remove_ids(&self.pending_requests, &done);
                proof {
                    lemma_without_ids_subset(self.pending_requests@, done@);
                }
                self.pending_requests = rest;
                Ok(())
            },
        }
    }

    /// One page of the pending requests, in queue order.
    pub fn pending_requests(&self, from: u32, per_page: u32) -> (r: Pagination<MembershipRequest>)
        requires
            self.wf(),
        ensures
            r.items@ == page_of(self.pending_requests@, from, per_page).map_values(
                |id: RequestId| self.requests@[id - 1],
            ),
            r.from == from,
            r.per_page == if per_page < MAX_PER_PAGE { per_page } else { MAX_PER_PAGE },
            r.has_next_page == page_has_next(from, per_page, self.pending_requests@.len() as int),
            r.total == self.pending_requests@.len() as u32,
    {
        let per_page = if per_page < MAX_PER_PAGE { per_page } else { MAX_PER_PAGE };
        let total = self.pending_requests.len() as u64;
        let has_next_page = (from as u64) + (per_page as u64) < total;
        let end: u64 = if has_next_page { (from as u64) + (per_page as u64) } else { total };
        let mut items: Vec<MembershipRequest> = Vec::new();
        let ghost f = |id: RequestId| self.requests@[id - 1];
        if (from as u64) < end {
            let mut i: usize = from as usize;
            proof {
                assert(self.pending_requests@.subrange(from as int, from as int).map_values(f)
                    =~= Seq::<MembershipRequest>::empty());
            }
            while i < end as usize
                invariant
                    self.wf(),
                    from <= i <= end,
                    end <= self.pending_requests@.len(),
                    f == (|id: RequestId| self.requests@[id - 1]),
                    items@ == self.pending_requests@.subrange(from as int, i as int).map_values(f),
                decreases end - i,
            {
                let id = self.pending_requests[i];
                proof {
                    assert(1 <= self.pending_requests@[i as int] <= self.requests@.len());
                }
                items.push(self.requests[(id - 1) as usize]);
                proof {
                    assert(self.pending_requests@.subrange(from as int, i + 1).map_values(f)
                        =~= self.pending_requests@.subrange(from as int, i as int).map_values(f).push(
                        f(id),
                    ));
                }
                i += 1;
            }
        } else {
            proof {
                assert(items@ =~= page_of(self.pending_requests@, from, per_page).map_values(f));
            }
        }
        Pagination { items, from, per_page, has_next_page, total: total as u32 }
    }

    /// Owner-only: decides a batch of requests in order. `refunds_ok[k]` is the
    /// outcome of returning the escrow for entry `k`, consulted only when that
    /// entry rejects a live request not yet decided in this batch (see
    /// `refund_plan`). The batch is all or nothing: on the first
    /// error nothing is kept; on success the decided requests leave the queue.
    pub fn submit_request_approvals(
        &mut self,
        caller: AccountId,
        now: Timestamp,
        approvals: &Vec<(AccountId, bool)>,
        refunds_ok: &Vec<bool>,
    ) -> (r: Result<ApprovalSubmissionResult, SpaceError>)
        requires
            old(self).wf(),
            refunds_ok@.len() == approvals@.len(),
        ensures
            final(self).wf(),
            same_settings(*old(self), *final(self)),
            same_plugins(*old(self), *final(self)),
            caller != old(self).owner ==> r == Err::<ApprovalSubmissionResult, SpaceError>(
                SpaceError::CallerIsNotOwner,
            ) && unchanged(*old(self), *final(self)),
            caller == old(self).owner ==> match run_approvals(
                (
                    old(self).members@,
                    old(self).requests@,
                    ApprovalSubmissionResult { approved: 0, rejected: 0, not_found: 0 },
                    Seq::empty(),
                ),
                old(self).pending_requests@,
                approvals@,
                refunds_ok@,
                approvals@.len() as int,
                ttl_of(old(self).config.pricing),
                now,
            ) {
                Err(e) => r == Err::<ApprovalSubmissionResult, SpaceError>(e) && unchanged(
                    *old(self),
                    *final(self),
                ),
                Ok(run) => {
                    &&& r == Ok::<ApprovalSubmissionResult, SpaceError>(run.2)
                    &&& final(self).members@ == run.0
                    &&& final(self).requests@ == run.1
                    &&& final(self).pending_requests@ == without_ids(
                        old(self).pending_requests@,
                        run.3,
                    )
                },
            },
    {
        if caller != self.owner {
            return Err(SpaceError::CallerIsNotOwner);
        }
        let ttl = self.config.ttl();
        let saved_members = copy_members(&self.members);
        let saved_requests = copy_requests(&self.requests);
        let ghost init: ApprovalRun = (
            old(self).members@,
            old(self).requests@,
            ApprovalSubmissionResult { approved: 0, rejected: 0, not_found: 0 },
            Seq::empty(),
        );
        let mut approved_count: u32 = 0;
        let mut rejected_count: u32 = 0;
        let mut not_found_count: u32 = 0;
        let mut submitted: Vec<RequestId> = Vec::new();
        let mut k: usize = 0;
        while k < approvals.len()
            invariant
                self.wf(),
                old(self).wf(),
                caller == old(self).owner,
                init == (
                    old(self).members@,
                    old(self).requests@,
                    ApprovalSubmissionResult { approved: 0, rejected: 0, not_found: 0 },
                    Seq::<RequestId>::empty(),
                ),
                0 <= k <= approvals@.len(),
                refunds_ok@.len() == approvals@.len(),
                same_settings(*old(self), *self),
                same_plugins(*old(self), *self),
                self.pending_requests@ == old(self).pending_requests@,
                saved_members@ == old(self).members@,
                saved_requests@ == old(self).requests@,
                ttl == ttl_of(old(self).config.pricing),
                run_approvals(
                    init,
                    old(self).pending_requests@,
                    approvals@,
                    refunds_ok@,
                    k as int,
                    ttl,
                    now,
                ) == Ok::<ApprovalRun, SpaceError>(
                    (
                        self.members@,
                        self.requests@,
                        ApprovalSubmissionResult {
                            approved: approved_count,
                            rejected: rejected_count,
                            not_found: not_found_count,
                        },
                        submitted@,
                    ),
                ),
            decreases approvals@.len() - k,
        {
            let (who, approved) = approvals[k];
            let found = match self.get_membership_request(who) {
                Some((id, req)) => {
                    if contains_u32(&submitted, id) {
                        None
                    } else {
                        Some((id, req))
                    }
                },
                None => None,
            };
            match found {
                None => {
                    not_found_count = not_found_count.saturating_add(1);
                },
                Some((id, req)) => {
                    if approved {
                        match self.do_grant(req.who, ttl, now) {
                            Err(e) => {
                                self.members = saved_members;
                                self.requests = saved_requests;
                                proof {
                                    assert(run_approvals(init, old(self).pending_requests@, approvals@,
                                        refunds_ok@, k + 1, ttl, now) == Err::<ApprovalRun, SpaceError>(e));
                                    lemma_run_error_sticks(init, old(self).pending_requests@, approvals@,
                                        refunds_ok@, k + 1, approvals@.len() as int, ttl, now);
                                }
                                return Err(e);
                            },
                            Ok(()) => {},
                        }
                        approved_count = approved_count.saturating_add(1);
                    } else if refunds_ok[k] {
                        rejected_count = rejected_count.saturating_add(1);
                    } else {
                        self.members = saved_members;
                        self.requests = saved_requests;
                        proof {
                            assert(run_approvals(init, old(self).pending_requests@, approvals@,
                                refunds_ok@, k + 1, ttl, now) == Err::<ApprovalRun, SpaceError>(
                                SpaceError::CannotRefundPayment(req.who, id)));
                            lemma_run_error_sticks(init, old(self).pending_requests@, approvals@,
                                refunds_ok@, k + 1, approvals@.len() as int, ttl, now);
                        }
                        return Err(SpaceError::CannotRefundPayment(req.who, id));
                    }
                    self.requests[(id - 1) as usize] = MembershipRequest {
                        who: req.who,
                        paid: req.paid,
                        requested_at: req.requested_at,
                        approved: Some(approved),
                    };
                    submitted.push(id);
                },
            }
            k += 1;
        }
        let rest = remove_ids(&self.pending_requests, &submitted);
        proof {
            lemma_without_ids_subset(self.pending_requests@, submitted@);
        }
        self.pending_requests = rest;
        Ok(
            ApprovalSubmissionResult {
                approved: approved_count,
                rejected: rejected_count,
                not_found: not_found_count,
            },
        )
    }

    /// One page of the member ledger, in index order.
    pub fn list_members(&self, from: u32, per_page: u32) -> (r: Pagination<MemberRecord>)
        requires
            self.wf(),
        ensures
            r.items@ == page_of(self.members@, from, per_page).map(
                |j: int, m: (AccountId, MemberInfo)|
                    MemberRecord { index: (from + j) as u32, account_id: m.0, info: m.1 },
            ),
            r.from == from,
            r.per_page == if per_page < MAX_PER_PAGE { per_page } else { MAX_PER_PAGE },
            r.has_next_page == page_has_next(from, per_page, self.members@.len() as int),
            r.total == self.members@.len() as u32,
    {
        let per_page = if per_page < MAX_PER_PAGE { per_page } else { MAX_PER_PAGE };
        let total = self.members.len() as u64;
        let has_next_page = (from as u64) + (per_page as u64) < total;
        let end: u64 = if has_next_page { (from as u64) + (per_page as u64) } else { total };
        let mut items: Vec<MemberRecord> = Vec::new();
        let ghost f = |j: int, m: (AccountId, MemberInfo)|
            MemberRecord { index: (from + j) as u32, account_id: m.0, info: m.1 };
        if (from as u64) < end {
            let mut i: usize = from as usize;
            proof {
                assert(self.members@.subrange(from as int, from as int).map(f) =~= Seq::<
                    MemberRecord,
                >::empty());
            }
            while i < end as usize
                invariant
                    self.wf(),
                    from <= i <= end,
                    end <= self.members@.len(),
                    f == (|j: int, m: (AccountId, MemberInfo)|
                        MemberRecord { index: (from + j) as u32, account_id: m.0, info: m.1 }),
                    items@ == self.members@.subrange(from as int, i as int).map(f),
                decreases end - i,
            {
                let account_id = self.members[i].0;
                let info = copy_info(&self.members[i].1);
                items.push(MemberRecord { index: i as u32, account_id, info });
                proof {
                    assert(self.members@.subrange(from as int, i + 1).map(f) =~= self.members@.subrange(
                        from as int,
                        i as int,
                    ).map(f).push(f(i - from, self.members@[i as int])));
                }
                i += 1;
            }
        } else {
            proof {
                assert(items@ =~= page_of(self.members@, from, per_page).map(f));
            }
        }
        Pagination { items, from, per_page, has_next_page, total: total as u32 }
    }

    /// The attached plugin kinds, in attachment order.
    pub fn plugin_ids(&self) -> (r: Vec<PluginId>)
        ensures
            r@ == kinds_of(self.plugins@),
    {
        let mut out: Vec<PluginId> = Vec::new();
        let mut i: usize = 0;
        while i < self.plugins.len()
            invariant
                0 <= i <= self.plugins@.len(),
                out@ == kinds_of(self.plugins@.take(i as int)),
            decreases self.plugins@.len() - i,
        {
            out.push(self.plugins[i].0);
            proof {
                assert(kinds_of(self.plugins@.take(i + 1)) =~= kinds_of(self.plugins@.take(i as int)).push(
                    self.plugins@[i as int].0,
                ));
            }
            i += 1;
        }
        proof {
            assert(self.plugins@.take(self.plugins@.len() as int) =~= self.plugins@);
        }
        out
    }

    /// Registry-only: attaches a batch of `(kind, address)` pairs. The whole
    /// batch is refused when one of its kinds is already attached or appears
    /// twice in it; otherwise every pair is appended in order.
    pub fn attach_plugins(&mut self, caller: AccountId, plugins: Vec<(PluginId, AccountId)>) -> (r: Result<
        (),
        SpaceError,
    >)
        requires
            old(self).wf(),
        ensures
            final(self).wf(),
            same_settings(*old(self), *final(self)),
            same_requests(*old(self), *final(self)),
            final(self).members@ == old(self).members@,
            final(self).disabled_plugin_ids@ == old(self).disabled_plugin_ids@,
            caller != old(self).motherspace_id ==> r == Err::<(), SpaceError>(SpaceError::UnAuthorized)
                && final(self).plugins@ == old(self).plugins@,
            caller == old(self).motherspace_id && !kinds_of(old(self).plugins@ + plugins@).no_duplicates()
                ==> r == Err::<(), SpaceError>(SpaceError::DuplicatePlugin) && final(self).plugins@
                == old(self).plugins@,
            caller == old(self).motherspace_id && kinds_of(old(self).plugins@ + plugins@).no_duplicates()
                ==> r is Ok && final(self).plugins@ == old(self).plugins@ + plugins@,
    {
        if caller != self.motherspace_id {
            return Err(SpaceError::UnAuthorized);
        }
        let mut kinds = self.plugin_ids();
        let ghost all = self.plugins@ + plugins@;
        let mut i: usize = 0;
        proof {
            assert(self.plugins@ + plugins@.take(0) =~= self.plugins@);
        }
        while i < plugins.len()
            invariant
                *self == *old(self),
                old(self).wf(),
                caller == old(self).motherspace_id,
                0 <= i <= plugins@.len(),
                all == self.plugins@ + plugins@,
                kinds@ == kinds_of(self.plugins@ + plugins@.take(i as int)),
                kinds@.no_duplicates(),
            decreases plugins@.len() - i,
        {
            let k = plugins[i].0;
            if contains_plugin(&kinds, k) {
                proof {
                    let j = kinds@.index_of(k);
                    let n = self.plugins@.len() as int;
                    assert(kinds_of(all)[j] == k);
                    assert(kinds_of(all)[n + i] == k);
                }
                return Err(SpaceError::DuplicatePlugin);
            }
            kinds.push(k);
            proof {
                assert(self.plugins@ + plugins@.take(i + 1) =~= (self.plugins@ + plugins@.take(
                    i as int,
                )).push(plugins@[i as int]));
                assert(kinds_of(self.plugins@ + plugins@.take(i + 1)) =~= kinds_of(
                    self.plugins@ + plugins@.take(i as int),
                ).push(k));
            }
            i += 1;
        }
        proof {
            assert(plugins@.take(plugins@.len() as int) =~= plugins@);
        }
        let mut j: usize = 0;
        let ghost start = self.plugins@;
        while j < plugins.len()
            invariant
                0 <= j <= plugins@.len(),
                self.plugins@ == start + plugins@.take(j as int),
                same_settings(*old(self), *self),
                same_requests(*old(self), *self),
                self.members@ == old(self).members@,
                self.disabled_plugin_ids@ == old(self).disabled_plugin_ids@,
            decreases plugins@.len() - j,
        {
            self.plugins.push(plugins[j]);
            proof {
                assert(start + plugins@.take(j + 1) =~= (start + plugins@.take(j as int)).push(
                    plugins@[j as int],
                ));
            }
            j += 1;
        }
        proof {
            assert(self.plugins@ =~= all);
        }
        Ok(())
    }

    /// Whether `kind` is attached.
    fn has_plugin(&self, kind: PluginId) -> (r: bool)
        ensures
            r == kinds_of(self.plugins@).contains(kind),
    {
        let kinds = self.plugin_ids();
        contains_plugin(&kinds, kind)
    }

    /// Owner-only: enables an attached plugin kind.
    pub fn enable_plugin(&mut self, caller: AccountId, kind: PluginId) -> (r: Result<(), SpaceError>)
        requires
            old(self).wf(),
        ensures
            final(self).wf(),
            same_settings(*old(self), *final(self)),
            same_requests(*old(self), *final(self)),
            final(self).members@ == old(self).members@,
            final(self).plugins@ == old(self).plugins@,
            caller != old(self).owner ==> r == Err::<(), SpaceError>(SpaceError::CallerIsNotOwner)
                && final(self).disabled_plugin_ids@ == old(self).disabled_plugin_ids@,
            caller == old(self).owner && !kinds_of(old(self).plugins@).contains(kind) ==> r == Err::<
                (),
                SpaceError,
            >(SpaceError::PluginNotFound) && final(self).disabled_plugin_ids@
                == old(self).disabled_plugin_ids@,
            caller == old(self).owner && kinds_of(old(self).plugins@).contains(kind) ==> r is Ok
                && final(self).disabled_plugin_ids@ == old(self).disabled_plugin_ids@.filter(
                |x: PluginId| x != kind,
            ),
    {
        if caller != self.owner {
            return Err(SpaceError::CallerIsNotOwner);
        }
        if !self.has_plugin(kind) {
            return Err(SpaceError::PluginNotFound);
        }
        let mut out: Vec<PluginId> = Vec::new();
        let mut i: usize = 0;
        while i < self.disabled_plugin_ids.len()
            invariant
                0 <= i <= self.disabled_plugin_ids@.len(),
                out@ == self.disabled_plugin_ids@.take(i as int).filter(|x: PluginId| x != kind),
            decreases self.disabled_plugin_ids@.len() - i,
        {
            proof {
                reveal(Seq::filter);
                assert(self.disabled_plugin_ids@.take(i + 1).drop_last() =~= self.disabled_plugin_ids@.take(
                    i as int,
                ));
            }
            let x = self.disabled_plugin_ids[i];
            if x != kind {
                out.push(x);
            }
            i += 1;
        }
        proof {
            assert(self.disabled_plugin_ids@.take(self.disabled_plugin_ids@.len() as int)
                =~= self.disabled_plugin_ids@);
        }
        self.disabled_plugin_ids = out;
        Ok(())
    }

    /// Owner-only: disables an attached plugin kind; disabling twice is the
    /// same as once.
    pub fn disable_plugin(&mut self, caller: AccountId, kind: PluginId) -> (r: Result<(), SpaceError>)
        requires
            old(self).wf(),
        ensures
            final(self).wf(),
            same_settings(*old(self), *final(self)),
            same_requests(*old(self), *final(self)),
            final(self).members@ == old(self).members@,
            final(self).plugins@ == old(self).plugins@,
            caller != old(self).owner ==> r == Err::<(), SpaceError>(SpaceError::CallerIsNotOwner)
                && final(self).disabled_plugin_ids@ == old(self).disabled_plugin_ids@,
            caller == old(self).owner && !kinds_of(old(self).plugins@).contains(kind) ==> r == Err::<
                (),
                SpaceError,
            >(SpaceError::PluginNotFound) && final(self).disabled_plugin_ids@
                == old(self).disabled_plugin_ids@,
            caller == old(self).owner && kinds_of(old(self).plugins@).contains(kind) ==> r is Ok && (
            if old(self).disabled_plugin_ids@.contains(kind) {
                final(self).disabled_plugin_ids@ == old(self).disabled_plugin_ids@
            } else {
                final(self).disabled_plugin_ids@ == old(self).disabled_plugin_ids@.push(kind)
            }),
    {
        if caller != self.owner {
            return Err(SpaceError::CallerIsNotOwner);
        }
        if !self.has_plugin(kind) {
            return Err(SpaceError::PluginNotFound);
        }
        if !contains_plugin(&self.disabled_plugin_ids, kind) {
            self.disabled_plugin_ids.push(kind);
        }
        Ok(())
    }

    /// The address of an attached plugin, which a host asks for its code
    /// reference.
    pub fn plugin_address(&self, kind: PluginId) -> (r: Result<AccountId, SpaceError>)
        requires
            self.wf(),
        ensures
            !kinds_of(self.plugins@).contains(kind) ==> r == Err::<AccountId, SpaceError>(
                SpaceError::PluginNotFound,
            ),
            kinds_of(self.plugins@).contains(kind) ==> r == Ok::<AccountId, SpaceError>(
                self.plugins@[kinds_of(self.plugins@).index_of(kind)].1,
            ),
    {
        let mut i: usize = 0;
        while i < self.plugins.len()
            invariant
                self.wf(),
                0 <= i <= self.plugins@.len(),
                forall|j: int| 0 <= j < i ==> self.plugins@[j].0 != kind,
            decreases self.plugins@.len() - i,
        {
            if self.plugins[i].0 == kind {
                proof {
                    assert(kinds_of(self.plugins@)[i as int] == kind);
                    lemma_index_of_unique(kinds_of(self.plugins@), i as int);
                }
                return Ok(self.plugins[i].1);
            }
            i += 1;
        }
        proof {
            assert forall|j: int| 0 <= j < self.plugins@.len() implies kinds_of(self.plugins@)[j] != kind by {
                assert(kinds_of(self.plugins@)[j] == self.plugins@[j].0);
            }
        }
        Err(SpaceError::PluginNotFound)
    }

    /// The attached plugins with their state; `code_hashes[i]` is the code
    /// reference that the `i`-th attached plugin reported.
    pub fn plugins(&self, code_hashes: &Vec<CodeRef>) -> (r: Vec<PluginInfo>)
        requires
            code_hashes@.len() == self.plugins@.len(),
        ensures
            r@.len() == self.plugins@.len(),
            forall|i: int|
                0 <= i < r@.len() ==> #[trigger] r@[i] == (PluginInfo {
                    id: self.plugins@[i].0,
                    address: self.plugins@[i].1,
                    disabled: self.disabled_plugin_ids@.contains(self.plugins@[i].0),
                    code_hash: code_hashes@[i],
                }),
    {
        let mut out: Vec<PluginInfo> = Vec::new();
        let mut i: usize = 0;
        while i < self.plugins.len()
            invariant
                0 <= i <= self.plugins@.len(),
                code_hashes@.len() == self.plugins@.len(),
                out@.len() == i,
                forall|j: int|
                    0 <= j < i ==> #[trigger] out@[j] == (PluginInfo {
                        id: self.plugins@[j].0,
                        address: self.plugins@[j].1,
                        disabled: self.disabled_plugin_ids@.contains(self.plugins@[j].0),
                        code_hash: code_hashes@[j],
                    }),
            decreases self.plugins@.len() - i,
        {
            let (id, address) = self.plugins[i];
            let disabled = contains_plugin(&self.disabled_plugin_ids, id);
            out.push(PluginInfo { id, address, disabled, code_hash: code_hashes[i] });
            i += 1;
        }
        out
    }

    /// The space profile.
    pub fn info(&self) -> (r: &SpaceInfo)
        ensures
            *r == self.info,
    {
        &self.info
    }

    /// Owner-only: replaces the profile, checked as at creation.
    pub fn update_info(&mut self, caller: AccountId, info: SpaceInfo) -> (r: Result<(), SpaceError>)
        requires
            old(self).wf(),
        ensures
            final(self).wf(),
            final(self).motherspace_id == old(self).motherspace_id,
            final(self).owner == old(self).owner,
            final(self).config == old(self).config,
            final(self).members@ == old(self).members@,
            same_requests(*old(self), *final(self)),
            same_plugins(*old(self), *final(self)),
            caller != old(self).owner ==> r == Err::<(), SpaceError>(SpaceError::CallerIsNotOwner)
                && final(self).info == old(self).info,
            caller == old(self).owner && !info_ok(info) ==> r == Err::<(), SpaceError>(info_error(info))
                && final(self).info == old(self).info,
            caller == old(self).owner && info_ok(info) ==> r is Ok && final(self).info == info,
    {
        if caller != self.owner {
            return Err(SpaceError::CallerIsNotOwner);
        }
        match validate_info(&info) {
            Err(e) => {
                return Err(e);
            },
            Ok(()) => {},
        }
        self.info = info;
        Ok(())
    }

    /// Owner-only: replaces the configuration, normalized (invite-only spaces
    /// are free).
    pub fn update_config(&mut self, caller: AccountId, config: SpaceConfig) -> (r: Result<(), SpaceError>)
        requires
            old(self).wf(),
        ensures
            final(self).wf(),
            final(self).motherspace_id == old(self).motherspace_id,
            final(self).owner == old(self).owner,
            final(self).info == old(self).info,
            final(self).members@ == old(self).members@,
            same_requests(*old(self), *final(self)),
            same_plugins(*old(self), *final(self)),
            caller != old(self).owner ==> r == Err::<(), SpaceError>(SpaceError::CallerIsNotOwner)
                && final(self).config == old(self).config,
            caller == old(self).owner ==> r is Ok && final(self).config == normalized(Some(config)),
    {
        if caller != self.owner {
            return Err(SpaceError::CallerIsNotOwner);
        }
        self.config = SpaceConfig::normalize(Some(config));
        Ok(())
    }

    /// Owner-only: hands the space to `new_owner`.
    pub fn transfer_ownership(&mut self, caller: AccountId, new_owner: AccountId) -> (r: Result<(), SpaceError>)
        requires
            old(self).wf(),
        ensures
            final(self).wf(),
            final(self).motherspace_id == old(self).motherspace_id,
            final(self).info == old(self).info,
            final(self).config == old(self).config,
            final(self).members@ == old(self).members@,
            same_requests(*old(self), *final(self)),
            same_plugins(*old(self), *final(self)),
            caller != old(self).owner ==> r == Err::<(), SpaceError>(SpaceError::CallerIsNotOwner)
                && final(self).owner == old(self).owner,
            caller == old(self).owner ==> r is Ok && final(self).owner == new_owner,
    {
        if caller != self.owner {
            return Err(SpaceError::CallerIsNotOwner);
        }
        self.owner = new_owner;
        Ok(())
    }

    /// The refund that each entry of a batch calls for, in entry order: what a
    /// host transfers before deciding the batch. Each request is refunded at
    /// most once.
    pub fn refund_plan(&self, approvals: &Vec<(AccountId, bool)>) -> (r: Vec<Option<(AccountId, Balance)>>)
        requires
            self.wf(),
        ensures
            r@.len() == approvals@.len(),
            forall|k: int|
                0 <= k < r@.len() ==> #[trigger] r@[k] == refund_of(
                    self.requests@,
                    self.pending_requests@,
                    approvals@,
                    k,
                ),
    {
        let mut out: Vec<Option<(AccountId, Balance)>> = Vec::new();
        let mut k: usize = 0;
        while k < approvals.len()
            invariant
                self.wf(),
                0 <= k <= approvals@.len(),
                out@.len() == k,
                forall|i: int|
                    0 <= i < k ==> #[trigger] out@[i] == refund_of(
                        self.requests@,
                        self.pending_requests@,
                        approvals@,
                        i,
                    ),
            decreases approvals@.len() - k,
        {
            let (who, approved) = approvals[k];
            let item = if approved || repeats_earlier(approvals, k) {
                None
            } else {
                match self.get_membership_request(who) {
                    Some((_, req)) => Some((req.who, req.paid)),
                    None => None,
                }
            };
            out.push(item);
            k += 1;
        }
        out
    }

    /// The accounts that a successful batch grants membership to, in entry
    /// order: what a host reports to the registry afterwards.
    pub fn approved_accounts(&self, approvals: &Vec<(AccountId, bool)>) -> (r: Vec<AccountId>)
        requires
            self.wf(),
        ensures
            r@ == approved_accounts(
                self.requests@,
                self.pending_requests@,
                approvals@,
                approvals@.len() as int,
            ),
    {
        let mut out: Vec<AccountId> = Vec::new();
        let mut k: usize = 0;
        while k < approvals.len()
            invariant
                self.wf(),
                0 <= k <= approvals@.len(),
                out@ == approved_accounts(
                    self.requests@,
                    self.pending_requests@,
                    approvals@,
                    k as int,
                ),
            decreases approvals@.len() - k,
        {
            let (who, approved) = approvals[k];
            if approved && !repeats_earlier(approvals, k) && self.get_membership_request(who).is_some() {
                out.push(who);
            }
            k += 1;
        }
        out
    }
}

} // verus!
