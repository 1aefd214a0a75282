use vstd::prelude::*;
use crate::ids::AccountId;

verus! {

/// Errors of a plugin.
#[derive(Debug, PartialEq, Eq)]
pub enum PluginError {
    /// The caller is not an active member of the space.
    NotActiveMember,
    /// The caller is not the owner of the space.
    NotSpaceOwner,
}

/// The check a plugin makes before a members-only action. `caller_is_active`
/// is the space's answer to whether the caller is an active member.
pub fn only_active_member(caller_is_active: bool) -> (r: Result<(), PluginError>)
    ensures
        caller_is_active ==> r is Ok,
        !caller_is_active ==> r == Err::<(), PluginError>(PluginError::NotActiveMember),
{
    if caller_is_active {
        Ok(())
    } else {
        Err(PluginError::NotActiveMember)
    }
}

/// The check a plugin makes before an owner-only action. `space_owner` is the
/// owner that the space reports.
pub fn only_space_owner(caller: AccountId, space_owner: AccountId) -> (r: Result<(), PluginError>)
    ensures
        caller == space_owner ==> r is Ok,
        caller != space_owner ==> r == Err::<(), PluginError>(PluginError::NotSpaceOwner),
{
    if space_owner == caller {
        Ok(())
    } else {
        Err(PluginError::NotSpaceOwner)
    }
}

/// A plugin holding one boolean that active members of its space may flip.
pub struct Flipper {
    pub space_id: AccountId,
    pub launcher_id: AccountId,
    pub value: bool,
}

impl Flipper {
    /// A flipper of the space `space_id`, launched by `launcher_id`, holding
    /// `false`.
    pub fn new(space_id: AccountId, launcher_id: AccountId) -> (r: Flipper)
        ensures
            r.space_id == space_id,
            r.launcher_id == launcher_id,
            !r.value,
    {
        Flipper { space_id, launcher_id, value: false }
    }

    /// Active members only: flips the value. `caller_is_active` is what the
    /// space at `space_id` answered when asked whether the caller is an
    /// active member.
    pub fn flip(&mut self, caller_is_active: bool) -> (r: Result<(), PluginError>)
        ensures
            final(self).space_id == old(self).space_id,
            final(self).launcher_id == old(self).launcher_id,
            !caller_is_active ==> r == Err::<(), PluginError>(PluginError::NotActiveMember)
                && final(self).value == old(self).value,
            caller_is_active ==> r is Ok && final(self).value == !old(self).value,
    {
        match only_active_member(caller_is_active) {
            Err(e) => Err(e),
            Ok(()) => {
                self.value = !self.value;
                Ok(())
            },
        }
    }

    /// The current value.
    pub fn get(&self) -> (r: bool)
        ensures
            r == self.value,
    {
        self.value
    }

    /// The space this plugin belongs to.
    pub fn space_id(&self) -> (r: AccountId)
        ensures
            r == self.space_id,
    {
        self.space_id
    }

    /// The launcher that created this plugin.
    pub fn launcher_id(&self) -> (r: AccountId)
        ensures
            r == self.launcher_id,
    {
        self.launcher_id
    }
}

} // verus!
