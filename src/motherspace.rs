use vstd::prelude::*;
use crate::ids::{AccountId, CodeRef, PluginId};
use crate::code_log::VersionedCodeLog;
use crate::profile::{SpaceError, SpaceInfo, SpaceConfig, info_ok, info_error, normalized};
use crate::space::{
    Space, Pagination, MemberInfo, Timestamp, MAX_PER_PAGE, kinds_of, page_of, page_has_next,
};
use crate::launcher::LauncherError;

verus! {

/// Errors of the registry.
#[derive(Debug, PartialEq, Eq)]
pub enum MotherSpaceError {
    /// The caller is not the owner of the registry.
    CallerIsNotOwner,
    /// The caller lacks the role the message needs.
    UnAuthorized,
    /// No space was deployed at that address.
    SpaceNotFound,
    /// No launcher is registered for that plugin kind.
    PluginNotFound,
    /// A launcher failed to launch its plugin.
    PluginLaunchFailed,
    /// The launched plugins could not be attached to the space.
    PluginAttachFailed,
    /// A launcher is already registered for that plugin kind.
    PluginIdExisted,
    /// A space already lives at the address given for a new one.
    SpaceAlreadyDeployed,
    /// The new space refused its construction.
    SpaceRejected(SpaceError),
    /// A launcher refused the message.
    Launcher(LauncherError),
    /// No space code was ever registered.
    NoCodeRegistered,
    /// A counter would overflow.
    CounterOverflow,
}

/// What a host instantiates for a deployment: the space code, the salt and
/// the owner to construct the space with.
#[derive(Clone, Copy, Debug, PartialEq, Eq)]
pub struct DeployRequest {
    pub code: CodeRef,
    pub salt: u32,
    pub owner: AccountId,
}

/// The top-level registry: space code versions, deployed spaces, the
/// member-to-space index and the plugin launchers by kind.
///
/// `spaces` holds `(space, owner at deployment)` in deployment order;
/// `member_links` holds `(member, space)` pairs in the order they were added.
pub struct MotherSpace {
    pub owner: AccountId,
    pub space_codes: VersionedCodeLog,
    pub spaces: Vec<(AccountId, AccountId)>,
    pub member_links: Vec<(AccountId, AccountId)>,
    pub launchers: Vec<(PluginId, AccountId)>,
}

/// The space addresses of a deployment list, in order.
pub open spec fn space_ids(spaces: Seq<(AccountId, AccountId)>) -> Seq<AccountId> {
    spaces.map_values(|s: (AccountId, AccountId)| s.0)
}

/// Whether a `(member, space)` link belongs to `who`.
pub open spec fn link_of(who: AccountId) -> spec_fn((AccountId, AccountId)) -> bool {
    |l: (AccountId, AccountId)| l.0 == who
}

/// The space of a `(member, space)` link.
pub open spec fn linked_space(l: (AccountId, AccountId)) -> AccountId {
    l.1
}

/// The spaces linked to `who`, in the order they were linked.
pub open spec fn spaces_of(links: Seq<(AccountId, AccountId)>, who: AccountId) -> Seq<AccountId> {
    links.filter(link_of(who)).map_values(|l: (AccountId, AccountId)| linked_space(l))
}

/// The links after linking `who` to `space`; a pair is never stored twice.
pub open spec fn link_added(links: Seq<(AccountId, AccountId)>, who: AccountId, space: AccountId) -> Seq<
    (AccountId, AccountId),
> {
    if links.contains((who, space)) {
        links
    } else {
        links.push((who, space))
    }
}

/// The links after unlinking `who` from `space`.
pub open spec fn link_removed(links: Seq<(AccountId, AccountId)>, who: AccountId, space: AccountId) -> Seq<
    (AccountId, AccountId),
> {
    links.filter(|l: (AccountId, AccountId)| l != (who, space))
}

/// The launcher registered for `kind`, if any.
pub open spec fn launcher_of(launchers: Seq<(PluginId, AccountId)>, kind: PluginId) -> Option<AccountId> {
    if kinds_of(launchers).contains(kind) {
        Some(launchers[kinds_of(launchers).index_of(kind)].1)
    } else {
        None
    }
}

/// The requested kinds that have a launcher, paired with it, in request
/// order; kinds without a launcher are skipped.
pub open spec fn resolved(launchers: Seq<(PluginId, AccountId)>, kinds: Seq<PluginId>) -> Seq<
    (PluginId, AccountId),
>
    decreases kinds.len(),
{
    if kinds.len() == 0 {
        Seq::empty()
    } else {
        let rest = resolved(launchers, kinds.drop_last());
        match launcher_of(launchers, kinds.last()) {
            Some(l) => rest.push((kinds.last(), l)),
            None => rest,
        }
    }
}

/// Whether every resolved launcher reported a launched plugin.
pub open spec fn launches_ok(n: int, launched: Seq<Option<AccountId>>) -> bool {
    forall|i: int| 0 <= i < n ==> i < launched.len() && #[trigger] launched[i] is Some
}

/// Each resolved kind paired with the plugin its launcher launched.
pub open spec fn launched_pairs(res: Seq<(PluginId, AccountId)>, launched: Seq<Option<AccountId>>) -> Seq<
    (PluginId, AccountId),
> {
    res.map(|i: int, p: (PluginId, AccountId)| (p.0, launched[i]->Some_0))
}

/// The outcome of installing `kinds` into `space` by the registry `self_id`:
/// a failed launch fails it; otherwise the launched plugins are attached in
/// one batch, and a refused batch fails it too. Nothing changes on failure.
pub open spec fn install_outcome(
    launchers: Seq<(PluginId, AccountId)>,
    self_id: AccountId,
    old_space: Space,
    new_space: Space,
    kinds: Seq<PluginId>,
    launched: Seq<Option<AccountId>>,
    r: Result<Seq<(PluginId, AccountId)>, MotherSpaceError>,
) -> bool {
    let res = resolved(launchers, kinds);
    let pairs = launched_pairs(res, launched);
    if !launches_ok(res.len() as int, launched) {
        r == Err::<Seq<(PluginId, AccountId)>, MotherSpaceError>(MotherSpaceError::PluginLaunchFailed)
            && new_space.plugins@ == old_space.plugins@
    } else if pairs.len() == 0 {
        r == Ok::<Seq<(PluginId, AccountId)>, MotherSpaceError>(pairs) && new_space.plugins@
            == old_space.plugins@
    } else if old_space.motherspace_id != self_id || !kinds_of(old_space.plugins@ + pairs).no_duplicates() {
        r == Err::<Seq<(PluginId, AccountId)>, MotherSpaceError>(MotherSpaceError::PluginAttachFailed)
            && new_space.plugins@ == old_space.plugins@
    } else {
        r == Ok::<Seq<(PluginId, AccountId)>, MotherSpaceError>(pairs) && new_space.plugins@
            == old_space.plugins@ + pairs
    }
}

/// The account a deployment is for: the requested owner, else the caller.
pub open spec fn owner_for(caller: AccountId, owner: Option<AccountId>) -> AccountId {
    match owner {
        Some(o) => o,
        None => caller,
    }
}

impl MotherSpace {
    /// The shape every registry keeps.
    pub open spec fn wf(&self) -> bool {
        &&& self.space_codes.wf()
        &&& self.spaces@.len() <= u32::MAX
        &&& space_ids(self.spaces@).no_duplicates()
        &&& self.member_links@.no_duplicates()
        &&& self.launchers@.len() <= u32::MAX
        &&& kinds_of(self.launchers@).no_duplicates()
    }

    /// Whether a space was deployed at `id`.
    pub open spec fn deployed(&self, id: AccountId) -> bool {
        space_ids(self.spaces@).contains(id)
    }

    /// The failure of a deployment, checked in this order: no space code, an
    /// address already in use, a rejected profile, a full index, a failed
    /// launch, a refused attachment.
    pub open spec fn deploy_error(
        &self,
        info: SpaceInfo,
        kinds: Seq<PluginId>,
        new_space_id: AccountId,
        launched: Seq<Option<AccountId>>,
    ) -> Option<MotherSpaceError> {
        let res = resolved(self.launchers@, kinds);
        if self.space_codes.nonce() == 0 {
            Some(MotherSpaceError::NoCodeRegistered)
        } else if self.deployed(new_space_id) {
            Some(MotherSpaceError::SpaceAlreadyDeployed)
        } else if !info_ok(info) {
            Some(MotherSpaceError::SpaceRejected(info_error(info)))
        } else if self.spaces@.len() >= u32::MAX {
            Some(MotherSpaceError::CounterOverflow)
        } else if !launches_ok(res.len() as int, launched) {
            Some(MotherSpaceError::PluginLaunchFailed)
        } else if !kinds_of(launched_pairs(res, launched)).no_duplicates() {
            Some(MotherSpaceError::PluginAttachFailed)
        } else {
            None
        }
    }

    /// A registry owned by `owner_id` with `space_code` as version 1.
    pub fn new(space_code: CodeRef, owner_id: AccountId) -> (r: MotherSpace)
        ensures
            r.wf(),
            r.owner == owner_id,
            r.space_codes.codes@ == seq![space_code],
            r.spaces@.len() == 0,
            r.member_links@.len() == 0,
            r.launchers@.len() == 0,
    {
        let mut space_codes = VersionedCodeLog::new();
        let _ = space_codes.append(space_code);
        proof {
            assert(space_codes.codes@ =~= seq![space_code]);
        }
        let r = MotherSpace {
            owner: owner_id,
            space_codes,
            spaces: Vec::new(),
            member_links: Vec::new(),
            launchers: Vec::new(),
        };
        proof {
            assert(space_ids(r.spaces@) =~= Seq::<AccountId>::empty());
            assert(kinds_of(r.launchers@) =~= Seq::<PluginId>::empty());
        }
        r
    }

    /// Owner-only: appends new space code.
    pub fn upgrade_space_code(&mut self, caller: AccountId, code: CodeRef) -> (r: Result<(), MotherSpaceError>)
        requires
            old(self).wf(),
        ensures
            final(self).wf(),
            final(self).owner == old(self).owner,
            final(self).spaces@ == old(self).spaces@,
            final(self).member_links@ == old(self).member_links@,
            final(self).launchers@ == old(self).launchers@,
            caller != old(self).owner ==> r == Err::<(), MotherSpaceError>(
                MotherSpaceError::CallerIsNotOwner,
            ) && final(self).space_codes.codes@ == old(self).space_codes.codes@,
            caller == old(self).owner && old(self).space_codes.nonce() >= u32::MAX ==> r == Err::<
                (),
                MotherSpaceError,
            >(MotherSpaceError::CounterOverflow) && final(self).space_codes.codes@
                == old(self).space_codes.codes@,
            caller == old(self).owner && old(self).space_codes.nonce() < u32::MAX ==> r is Ok
                && final(self).space_codes.codes@ == old(self).space_codes.codes@.push(code),
    {
        if caller != self.owner {
            return Err(MotherSpaceError::CallerIsNotOwner);
        }
        match self.space_codes.append(code) {
            Some(_) => Ok(()),
            None => Err(MotherSpaceError::CounterOverflow),
        }
    }

    /// The latest space code.
    pub fn latest_space_code(&self) -> (r: Result<CodeRef, MotherSpaceError>)
        requires
            self.wf(),
        ensures
            self.space_codes.nonce() == 0 ==> r == Err::<CodeRef, MotherSpaceError>(
                MotherSpaceError::NoCodeRegistered,
            ),
            self.space_codes.nonce() > 0 ==> r == Ok::<CodeRef, MotherSpaceError>(
                self.space_codes.codes@.last(),
            ),
    {
        match self.space_codes.latest() {
            Some(c) => Ok(c),
            None => Err(MotherSpaceError::NoCodeRegistered),
        }
    }

    /// The number of deployed spaces.
    pub fn spaces_count(&self) -> (r: u32)
        requires
            self.wf(),
        ensures
            r == self.spaces@.len(),
    {
        self.spaces.len() as u32
    }

    /// Whether a space was deployed at `id`.
    pub fn is_deployed_space(&self, id: AccountId) -> (r: bool)
        requires
            self.wf(),
        ensures
            r == self.deployed(id),
    {
        let mut i: usize = 0;
        while i < self.spaces.len()
            invariant
                0 <= i <= self.spaces@.len(),
                forall|j: int| 0 <= j < i ==> self.spaces@[j].0 != id,
            decreases self.spaces@.len() - i,
        {
            if self.spaces[i].0 == id {
                proof {
                    assert(space_ids(self.spaces@)[i as int] == id);
                }
                return true;
            }
            i += 1;
        }
        proof {
            assert forall|j: int| 0 <= j < self.spaces@.len() implies space_ids(self.spaces@)[j] != id by {
                assert(space_ids(self.spaces@)[j] == self.spaces@[j].0);
            }
        }
        false
    }

    /// The number of registered launchers.
    pub fn plugins_count(&self) -> (r: u32)
        requires
            self.wf(),
        ensures
            r == self.launchers@.len(),
    {
        self.launchers.len() as u32
    }

    /// Every registered `(kind, launcher)`, in registration order.
    pub fn plugin_launchers(&self) -> (r: Vec<(PluginId, AccountId)>)
        ensures
            r@ == self.launchers@,
    {
        let mut out: Vec<(PluginId, AccountId)> = Vec::new();
        let mut i: usize = 0;
        while i < self.launchers.len()
            invariant
                0 <= i <= self.launchers@.len(),
                out@ == self.launchers@.take(i as int),
            decreases self.launchers@.len() - i,
        {
            out.push(self.launchers[i]);
            proof {
                assert(self.launchers@.take(i + 1) =~= self.launchers@.take(i as int).push(
                    self.launchers@[i as int],
                ));
            }
            i += 1;
        }
        proof {
            assert(self.launchers@.take(self.launchers@.len() as int) =~= self.launchers@);
        }
        out
    }

    /// The launcher registered for `kind`.
    pub fn launcher_for(&self, kind: PluginId) -> (r: Result<AccountId, MotherSpaceError>)
        requires
            self.wf(),
        ensures
            r == match launcher_of(self.launchers@, kind) {
                Some(l) => Ok::<AccountId, MotherSpaceError>(l),
                None => Err(MotherSpaceError::PluginNotFound),
            },
    {
        let mut i: usize = 0;
        while i < self.launchers.len()
            invariant
                self.wf(),
                0 <= i <= self.launchers@.len(),
                forall|j: int| 0 <= j < i ==> self.launchers@[j].0 != kind,
            decreases self.launchers@.len() - i,
        {
            if self.launchers[i].0 == kind {
                proof {
                    assert(kinds_of(self.launchers@)[i as int] == kind);
                    crate::space::lemma_index_of_unique(kinds_of(self.launchers@), i as int);
                }
                return Ok(self.launchers[i].1);
            }
            i += 1;
        }
        proof {
            assert forall|j: int| 0 <= j < self.launchers@.len() implies kinds_of(self.launchers@)[j] != kind by {
                assert(kinds_of(self.launchers@)[j] == self.launchers@[j].0);
            }
        }
        Err(MotherSpaceError::PluginNotFound)
    }

    /// Owner-only: registers the launcher of a new plugin kind and returns its
    /// position.
    pub fn register_plugin_launcher(&mut self, caller: AccountId, kind: PluginId, launcher: AccountId) -> (r:
        Result<u32, MotherSpaceError>)
        requires
            old(self).wf(),
        ensures
            final(self).wf(),
            final(self).owner == old(self).owner,
            final(self).space_codes == old(self).space_codes,
            final(self).spaces@ == old(self).spaces@,
            final(self).member_links@ == old(self).member_links@,
            caller != old(self).owner ==> r == Err::<u32, MotherSpaceError>(
                MotherSpaceError::CallerIsNotOwner,
            ) && final(self).launchers@ == old(self).launchers@,
            caller == old(self).owner && kinds_of(old(self).launchers@).contains(kind) ==> r == Err::<
                u32,
                MotherSpaceError,
            >(MotherSpaceError::PluginIdExisted) && final(self).launchers@ == old(self).launchers@,
            caller == old(self).owner && !kinds_of(old(self).launchers@).contains(kind)
                && old(self).launchers@.len() >= u32::MAX ==> r == Err::<u32, MotherSpaceError>(
                MotherSpaceError::CounterOverflow,
            ) && final(self).launchers@ == old(self).launchers@,
            caller == old(self).owner && !kinds_of(old(self).launchers@).contains(kind)
                && old(self).launchers@.len() < u32::MAX ==> r == Ok::<u32, MotherSpaceError>(
                old(self).launchers@.len() as u32,
            ) && final(self).launchers@ == old(self).launchers@.push((kind, launcher)),
    {
        if caller != self.owner {
            return Err(MotherSpaceError::CallerIsNotOwner);
        }
        if self.launcher_for(kind).is_ok() {
            return Err(MotherSpaceError::PluginIdExisted);
        }
        if self.launchers.len() >= u32::MAX as usize {
            return Err(MotherSpaceError::CounterOverflow);
        }
        let index = self.launchers.len() as u32;
        self.launchers.push((kind, launcher));
        proof {
            assert(kinds_of(self.launchers@) =~= kinds_of(old(self).launchers@).push(kind));
        }
        Ok(index)
    }

    /// The requested kinds that have a launcher, with that launcher, in
    /// request order; kinds without one are skipped.
    pub fn resolve_launchers(&self, kinds: &Vec<PluginId>) -> (r: Vec<(PluginId, AccountId)>)
        requires
            self.wf(),
        ensures
            r@ == resolved(self.launchers@, kinds@),
    {
        let mut out: Vec<(PluginId, AccountId)> = Vec::new();
        let mut i: usize = 0;
        while i < kinds.len()
            invariant
                self.wf(),
                0 <= i <= kinds@.len(),
                out@ == resolved(self.launchers@, kinds@.take(i as int)),
            decreases kinds@.len() - i,
        {
            let k = kinds[i];
            proof {
                assert(kinds@.take(i + 1).drop_last() =~= kinds@.take(i as int));
                assert(kinds@.take(i + 1).last() == k);
            }
            match self.launcher_for(k) {
                Ok(l) => {
                    out.push((k, l));
                },
                Err(_) => {},
            }
            i += 1;
        }
        proof {
            assert(kinds@.take(kinds@.len() as int) =~= kinds@);
        }
        out
    }

    /// Each resolved kind of `kinds` paired with the plugin its launcher
    /// launched; fails when a launch failed or is missing.
    fn collect_launched(&self, kinds: &Vec<PluginId>, launched: &Vec<Option<AccountId>>) -> (r: Result<
        Vec<(PluginId, AccountId)>,
        MotherSpaceError,
    >)
        requires
            self.wf(),
        ensures
            ({
                let res = resolved(self.launchers@, kinds@);
                if launches_ok(res.len() as int, launched@) {
                    r is Ok && r->Ok_0@ == launched_pairs(res, launched@)
                } else {
                    r == Err::<Vec<(PluginId, AccountId)>, MotherSpaceError>(
                        MotherSpaceError::PluginLaunchFailed,
                    )
                }
            }),
    {
        let res = self.resolve_launchers(kinds);
        let mut pairs: Vec<(PluginId, AccountId)> = Vec::new();
        let mut i: usize = 0;
        while i < res.len()
            invariant
                0 <= i <= res@.len(),
                res@ == resolved(self.launchers@, kinds@),
                launches_ok(i as int, launched@),
                pairs@ == launched_pairs(res@.take(i as int), launched@),
            decreases res@.len() - i,
        {
            if i >= launched.len() {
                return Err(MotherSpaceError::PluginLaunchFailed);
            }
            match launched[i] {
                None => {
                    return Err(MotherSpaceError::PluginLaunchFailed);
                },
                Some(a) => {
                    pairs.push((res[i].0, a));
                    proof {
                        assert(launched_pairs(res@.take(i + 1), launched@) =~= launched_pairs(
                            res@.take(i as int),
                            launched@,
                        ).push((res@[i as int].0, a)));
                    }
                },
            }
            i += 1;
        }
        proof {
            assert(res@.take(res@.len() as int) =~= res@);
        }
        Ok(pairs)
    }

    /// Launched plugins of `kinds` attached to `space` in one batch.
    fn install_plugins_impl(
        &self,
        self_id: AccountId,
        space: &mut Space,
        kinds: &Vec<PluginId>,
        launched: &Vec<Option<AccountId>>,
    ) -> (r: Result<Vec<(PluginId, AccountId)>, MotherSpaceError>)
        requires
            self.wf(),
            old(space).wf(),
        ensures
            final(space).wf(),
            crate::space::same_settings(*old(space), *final(space)),
            crate::space::same_requests(*old(space), *final(space)),
            final(space).members@ == old(space).members@,
            final(space).disabled_plugin_ids@ == old(space).disabled_plugin_ids@,
            install_outcome(
                self.launchers@,
                self_id,
                *old(space),
                *final(space),
                kinds@,
                launched@,
                match r {
                    Ok(v) => Ok::<Seq<(PluginId, AccountId)>, MotherSpaceError>(v@),
                    Err(e) => Err(e),
                },
            ),
    {
        let pairs = match self.collect_launched(kinds, launched) {
            Err(e) => {
                return Err(e);
            },
            Ok(p) => p,
        };
        let mut batch: Vec<(PluginId, AccountId)> = Vec::new();
        let mut j: usize = 0;
        while j < pairs.len()
            invariant
                0 <= j <= pairs@.len(),
                batch@ == pairs@.take(j as int),
            decreases pairs@.len() - j,
        {
            batch.push(pairs[j]);
            proof {
                assert(pairs@.take(j + 1) =~= pairs@.take(j as int).push(pairs@[j as int]));
            }
            j += 1;
        }
        proof {
            assert(pairs@.take(pairs@.len() as int) =~= pairs@);
        }
        if pairs.len() == 0 {
            return Ok(pairs);
        }
        match space.attach_plugins(self_id, batch) {
            Err(_) => Err(MotherSpaceError::PluginAttachFailed),
            Ok(()) => Ok(pairs),
        }
    }

    /// Links `who` to `space` unless it already is.
    fn add_link(&mut self, who: AccountId, space: AccountId)
        requires
            old(self).wf(),
        ensures
            final(self).wf(),
            final(self).owner == old(self).owner,
            final(self).space_codes == old(self).space_codes,
            final(self).spaces@ == old(self).spaces@,
            final(self).launchers@ == old(self).launchers@,
            final(self).member_links@ == link_added(old(self).member_links@, who, space),
    {
        let mut i: usize = 0;
        while i < self.member_links.len()
            invariant
                *self == *old(self),
                old(self).wf(),
                0 <= i <= self.member_links@.len(),
                forall|j: int| 0 <= j < i ==> self.member_links@[j] != (who, space),
            decreases self.member_links@.len() - i,
        {
            let (m, s) = self.member_links[i];
            if m == who && s == space {
                return;
            }
            i += 1;
        }
        self.member_links.push((who, space));
    }

    /// Unlinks `who` from `space`.
    fn remove_link(&mut self, who: AccountId, space: AccountId)
        requires
            old(self).wf(),
        ensures
            final(self).wf(),
            final(self).owner == old(self).owner,
            final(self).space_codes == old(self).space_codes,
            final(self).spaces@ == old(self).spaces@,
            final(self).launchers@ == old(self).launchers@,
            final(self).member_links@ == link_removed(old(self).member_links@, who, space),
    {
        let mut out: Vec<(AccountId, AccountId)> = Vec::new();
        let mut i: usize = 0;
        let ghost links = self.member_links@;
        let ghost f = |l: (AccountId, AccountId)| l != (who, space);
        while i < self.member_links.len()
            invariant
                0 <= i <= self.member_links@.len(),
                links == self.member_links@,
                links.no_duplicates(),
                f == (|l: (AccountId, AccountId)| l != (who, space)),
                out@ == links.take(i as int).filter(f),
                forall|a: int, b: int|
                    0 <= a < out@.len() && 0 <= b < out@.len() && a != b ==> out@[a] != out@[b],
                forall|a: int| 0 <= a < out@.len() ==> links.take(i as int).contains(#[trigger] out@[a]),
            decreases self.member_links@.len() - i,
        {
            proof {
                reveal(Seq::filter);
                assert(links.take(i + 1).drop_last() =~= links.take(i as int));
            }
            let (m, s) = self.member_links[i];
            if !(m == who && s == space) {
                proof {
                    assert forall|a: int| 0 <= a < out@.len() implies out@[a] != links[i as int] by {
                        let w = choose|w: int| 0 <= w < i && links.take(i as int)[w] == out@[a];
                        assert(links[w] == out@[a]);
                    }
                }
                out.push((m, s));
            }
            proof {
                assert forall|a: int| 0 <= a < out@.len() implies links.take(i + 1).contains(#[trigger] out@[a]) by {
                    if a < out@.len() - 1 || !(f(links[i as int])) {
                        let w = choose|w: int| 0 <= w < i && links.take(i as int)[w] == out@[a];
                        assert(links.take(i + 1)[w] == out@[a]);
                    } else {
                        assert(links.take(i + 1)[i as int] == out@[a]);
                    }
                }
            }
            i += 1;
        }
        proof {
            assert(links.take(links.len() as int) =~= links);
        }
        self.member_links = out;
    }

    /// Deploys a new space for `owner` (the caller when `None`) at
    /// `new_space_id`, the address the host derived for the next index, and
    /// installs the requested plugin kinds. `launched[i]` is the plugin that
    /// the launcher of the `i`-th resolved kind launched for the new space, or
    /// `None` when that launch failed. Kinds without a launcher are skipped.
    /// All or nothing: on failure the registry is unchanged.
    pub fn deploy_new_space(
        &mut self,
        caller: AccountId,
        self_id: AccountId,
        now: Timestamp,
        info: SpaceInfo,
        config: Option<SpaceConfig>,
        owner: Option<AccountId>,
        plugins: Option<Vec<PluginId>>,
        new_space_id: AccountId,
        launched: &Vec<Option<AccountId>>,
    ) -> (r: Result<(Space, Vec<(PluginId, AccountId)>), MotherSpaceError>)
        requires
            old(self).wf(),
        ensures
            final(self).wf(),
            final(self).owner == old(self).owner,
            final(self).space_codes == old(self).space_codes,
            final(self).launchers@ == old(self).launchers@,
            ({
                let kinds = match plugins {
                    Some(k) => k@,
                    None => Seq::<PluginId>::empty(),
                };
                let owner_id = owner_for(caller, owner);
                match old(self).deploy_error(info, kinds, new_space_id, launched@) {
                    Some(e) => {
                        &&& r == Err::<(Space, Vec<(PluginId, AccountId)>), MotherSpaceError>(e)
                        &&& final(self).spaces@ == old(self).spaces@
                        &&& final(self).member_links@ == old(self).member_links@
                    },
                    None => {
                        &&& r is Ok
                        &&& r->Ok_0.1@ == launched_pairs(resolved(old(self).launchers@, kinds), launched@)
                        &&& r->Ok_0.0.wf()
                        &&& r->Ok_0.0.motherspace_id == self_id
                        &&& r->Ok_0.0.owner == owner_id
                        &&& r->Ok_0.0.info == info
                        &&& r->Ok_0.0.config == normalized(config)
                        &&& r->Ok_0.0.members@ == seq![
                            (owner_id, MemberInfo { name: None, next_renewal_at: None, joined_at: now }),
                        ]
                        &&& r->Ok_0.0.plugins@ == r->Ok_0.1@
                        &&& r->Ok_0.0.requests@.len() == 0
                        &&& r->Ok_0.0.pending_requests@.len() == 0
                        &&& r->Ok_0.0.disabled_plugin_ids@.len() == 0
                        &&& final(self).spaces@ == old(self).spaces@.push((new_space_id, owner_id))
                        &&& final(self).member_links@ == link_added(
                            old(self).member_links@,
                            owner_id,
                            new_space_id,
                        )
                    },
                }
            }),
    {
        if self.space_codes.latest().is_none() {
            return Err(MotherSpaceError::NoCodeRegistered);
        }
        if self.is_deployed_space(new_space_id) {
            return Err(MotherSpaceError::SpaceAlreadyDeployed);
        }
        let owner_id = match owner {
            Some(o) => o,
            None => caller,
        };
        let mut space = match Space::new(self_id, self_id, owner_id, info, config, now) {
            Err(e) => {
                return Err(MotherSpaceError::SpaceRejected(e));
            },
            Ok(s) => s,
        };
        if self.spaces.len() >= u32::MAX as usize {
            return Err(MotherSpaceError::CounterOverflow);
        }
        let kinds = match plugins {
            Some(k) => k,
            None => Vec::new(),
        };
        let ghost empty_space = space;
        let pairs = match self.install_plugins_impl(self_id, &mut space, &kinds, launched) {
            Err(e) => {
                proof {
                    assert(empty_space.plugins@ + launched_pairs(resolved(self.launchers@, kinds@), launched@)
                        =~= launched_pairs(resolved(self.launchers@, kinds@), launched@));
                }
                return Err(e);
            },
            Ok(p) => p,
        };
        proof {
            assert(empty_space.plugins@ + pairs@ =~= pairs@);
        }
        self.spaces.push((new_space_id, owner_id));
        proof {
            assert(space_ids(self.spaces@) =~= space_ids(old(self).spaces@).push(new_space_id));
        }
        self.add_link(owner_id, new_space_id);
        Ok((space, pairs))
    }

    /// Installs plugin kinds into a deployed space on behalf of its owner.
    /// `space_owner` is the owner that the space reports; `launched` is as for
    /// `deploy_new_space`. The result is the batch that the space is then
    /// asked to attach.
    pub fn install_plugins(
        &self,
        caller: AccountId,
        space_id: AccountId,
        space_owner: AccountId,
        kinds: &Vec<PluginId>,
        launched: &Vec<Option<AccountId>>,
    ) -> (r: Result<Vec<(PluginId, AccountId)>, MotherSpaceError>)
        requires
            self.wf(),
        ensures
            !self.deployed(space_id) ==> r == Err::<Vec<(PluginId, AccountId)>, MotherSpaceError>(
                MotherSpaceError::SpaceNotFound,
            ),
            self.deployed(space_id) && caller != space_owner ==> r == Err::<
                Vec<(PluginId, AccountId)>,
                MotherSpaceError,
            >(MotherSpaceError::UnAuthorized),
            self.deployed(space_id) && caller == space_owner ==> ({
                let res = resolved(self.launchers@, kinds@);
                if launches_ok(res.len() as int, launched@) {
                    r is Ok && r->Ok_0@ == launched_pairs(res, launched@)
                } else {
                    r == Err::<Vec<(PluginId, AccountId)>, MotherSpaceError>(
                        MotherSpaceError::PluginLaunchFailed,
                    )
                }
            }),
    {
        if !self.is_deployed_space(space_id) {
            return Err(MotherSpaceError::SpaceNotFound);
        }
        if caller != space_owner {
            return Err(MotherSpaceError::UnAuthorized);
        }
        self.collect_launched(kinds, launched)
    }

    /// One page of the deployed spaces, in deployment order.
    pub fn list_spaces(&self, from: u32, per_page: u32) -> (r: Pagination<AccountId>)
        requires
            self.wf(),
        ensures
            r.items@ == page_of(space_ids(self.spaces@), from, per_page),
            r.from == from,
            r.per_page == if per_page < MAX_PER_PAGE { per_page } else { MAX_PER_PAGE },
            r.has_next_page == page_has_next(from, per_page, self.spaces@.len() as int),
            r.total == self.spaces@.len() as u32,
    {
        let per_page = if per_page < MAX_PER_PAGE { per_page } else { MAX_PER_PAGE };
        let total = self.spaces.len() as u64;
        let has_next_page = (from as u64) + (per_page as u64) < total;
        let end: u64 = if has_next_page { (from as u64) + (per_page as u64) } else { total };
        let mut items: Vec<AccountId> = Vec::new();
        let ghost ids = space_ids(self.spaces@);
        if (from as u64) < end {
            let mut i: usize = from as usize;
            proof {
                assert(ids.subrange(from as int, from as int) =~= Seq::<AccountId>::empty());
            }
            while i < end as usize
                invariant
                    from <= i <= end,
                    end <= self.spaces@.len(),
                    ids == space_ids(self.spaces@),
                    items@ == ids.subrange(from as int, i as int),
                decreases end - i,
            {
                items.push(self.spaces[i].0);
                proof {
                    assert(ids.subrange(from as int, i + 1) =~= ids.subrange(from as int, i as int).push(
                        self.spaces@[i as int].0,
                    ));
                }
                i += 1;
            }
        } else {
            proof {
                assert(items@ =~= page_of(ids, from, per_page));
            }
        }
        Pagination { items, from, per_page, has_next_page, total: total as u32 }
    }

    /// The spaces that `who` (the caller when `None`) is linked to.
    pub fn member_spaces(&self, caller: AccountId, who: Option<AccountId>) -> (r: Vec<AccountId>)
        ensures
            r@ == spaces_of(self.member_links@, owner_for(caller, who)),
    {
        let a = match who {
            Some(w) => w,
            None => caller,
        };
        let mut out: Vec<AccountId> = Vec::new();
        let mut i: usize = 0;
        let ghost links = self.member_links@;
        while i < self.member_links.len()
            invariant
                0 <= i <= self.member_links@.len(),
                links == self.member_links@,
                out@ == spaces_of(links.take(i as int), a),
            decreases self.member_links@.len() - i,
        {
            proof {
                reveal(Seq::filter);
                assert(links.take(i + 1).drop_last() =~= links.take(i as int));
            }
            let (m, s) = self.member_links[i];
            if m == a {
                out.push(s);
            }
            proof {
                let f = link_of(a);
                let g = |l: (AccountId, AccountId)| linked_space(l);
                let prev = links.take(i as int).filter(f);
                if f(links[i as int]) {
                    assert(links.take(i + 1).filter(f) == prev.push(links[i as int]));
                    assert(prev.push(links[i as int]).map_values(g) =~= prev.map_values(g).push(s));
                } else {
                    assert(links.take(i + 1).filter(f) == prev);
                }
            }
            i += 1;
        }
        proof {
            assert(links.take(links.len() as int) =~= links);
        }
        out
    }

    /// Called by a deployed space: links `who` to that space.
    pub fn add_space_member(&mut self, caller: AccountId, who: AccountId) -> (r: Result<(), MotherSpaceError>)
        requires
            old(self).wf(),
        ensures
            final(self).wf(),
            final(self).owner == old(self).owner,
            final(self).space_codes == old(self).space_codes,
            final(self).spaces@ == old(self).spaces@,
            final(self).launchers@ == old(self).launchers@,
            !old(self).deployed(caller) ==> r == Err::<(), MotherSpaceError>(MotherSpaceError::UnAuthorized)
                && final(self).member_links@ == old(self).member_links@,
            old(self).deployed(caller) ==> r is Ok && final(self).member_links@ == link_added(
                old(self).member_links@,
                who,
                caller,
            ),
    {
        if !self.is_deployed_space(caller) {
            return Err(MotherSpaceError::UnAuthorized);
        }
        self.add_link(who, caller);
        Ok(())
    }

    /// Called by a deployed space: unlinks `who` from that space.
    pub fn remove_space_member(&mut self, caller: AccountId, who: AccountId) -> (r: Result<(), MotherSpaceError>)
        requires
            old(self).wf(),
        ensures
            final(self).wf(),
            final(self).owner == old(self).owner,
            final(self).space_codes == old(self).space_codes,
            final(self).spaces@ == old(self).spaces@,
            final(self).launchers@ == old(self).launchers@,
            !old(self).deployed(caller) ==> r == Err::<(), MotherSpaceError>(MotherSpaceError::UnAuthorized)
                && final(self).member_links@ == old(self).member_links@,
            old(self).deployed(caller) ==> r is Ok && final(self).member_links@ == link_removed(
                old(self).member_links@,
                who,
                caller,
            ),
    {
        if !self.is_deployed_space(caller) {
            return Err(MotherSpaceError::UnAuthorized);
        }
        self.remove_link(who, caller);
        Ok(())
    }

    /// Owner-only: the launcher that new code for `kind` is forwarded to.
    pub fn plugin_upgrade_target(&self, caller: AccountId, kind: PluginId) -> (r: Result<
        AccountId,
        MotherSpaceError,
    >)
        requires
            self.wf(),
        ensures
            caller != self.owner ==> r == Err::<AccountId, MotherSpaceError>(
                MotherSpaceError::CallerIsNotOwner,
            ),
            caller == self.owner ==> r == match launcher_of(self.launchers@, kind) {
                Some(l) => Ok::<AccountId, MotherSpaceError>(l),
                None => Err(MotherSpaceError::PluginNotFound),
            },
    {
        if caller != self.owner {
            return Err(MotherSpaceError::CallerIsNotOwner);
        }
        self.launcher_for(kind)
    }

    /// What the next deployment instantiates: the latest space code, the next
    /// index as salt (so each position gets its own address), and the owner
    /// (the caller when none is requested).
    pub fn deploy_request(&self, caller: AccountId, owner: Option<AccountId>) -> (r: Result<
        DeployRequest,
        MotherSpaceError,
    >)
        requires
            self.wf(),
        ensures
            self.space_codes.nonce() == 0 ==> r == Err::<DeployRequest, MotherSpaceError>(
                MotherSpaceError::NoCodeRegistered,
            ),
            self.space_codes.nonce() > 0 ==> r == Ok::<DeployRequest, MotherSpaceError>(
                (DeployRequest {
                    code: self.space_codes.codes@.last(),
                    salt: self.spaces@.len() as u32,
                    owner: owner_for(caller, owner),
                }),
            ),
    {
        let code = match self.space_codes.latest() {
            Some(c) => c,
            None => {
                return Err(MotherSpaceError::NoCodeRegistered);
            },
        };
        let owner_id = match owner {
            Some(o) => o,
            None => caller,
        };
        Ok(DeployRequest { code, salt: self.spaces.len() as u32, owner: owner_id })
    }

    /// The owner of the registry.
    pub fn owner(&self) -> (r: AccountId)
        ensures
            r == self.owner,
    {
        self.owner
    }

    /// Owner-only: hands the registry to `new_owner`.
    pub fn transfer_ownership(&mut self, caller: AccountId, new_owner: AccountId) -> (r: Result<
        (),
        MotherSpaceError,
    >)
        requires
            old(self).wf(),
        ensures
            final(self).wf(),
            final(self).space_codes == old(self).space_codes,
            final(self).spaces@ == old(self).spaces@,
            final(self).member_links@ == old(self).member_links@,
            final(self).launchers@ == old(self).launchers@,
            caller != old(self).owner ==> r == Err::<(), MotherSpaceError>(
                MotherSpaceError::CallerIsNotOwner,
            ) && final(self).owner == old(self).owner,
            caller == old(self).owner ==> r is Ok && final(self).owner == new_owner,
    {
        if caller != self.owner {
            return Err(MotherSpaceError::CallerIsNotOwner);
        }
        self.owner = new_owner;
        Ok(())
    }
}

} // verus!
