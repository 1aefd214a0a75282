use vstd::prelude::*;
use crate::ids::{AccountId, CodeRef};
use crate::code_log::{VersionedCodeLog, Version};

verus! {

/// Errors of a plugin launcher.
#[derive(Debug, PartialEq, Eq)]
pub enum LauncherError {
    /// The caller is not the registry that owns this launcher.
    UnAuthorized,
    /// The caller is not the owner of this launcher.
    CallerIsNotOwner,
    /// No plugin code was ever registered.
    NoCodeRegistered,
    /// Creating the plugin instance failed.
    InstantiationFailed,
    /// A counter would overflow.
    CounterOverflow,
}

/// What a host instantiates for one launch: the plugin code, the salt that
/// makes the new address unique, and the constructor arguments.
#[derive(Clone, Copy, Debug, PartialEq, Eq)]
pub struct LaunchRequest {
    pub code: CodeRef,
    pub salt: u32,
    pub space_id: AccountId,
    pub launcher_id: AccountId,
}

/// A factory for the instances of one plugin kind, with its code history.
pub struct PluginLauncher {
    pub motherspace_id: AccountId,
    pub owner: AccountId,
    pub plugin_codes: VersionedCodeLog,
    pub launches_count: u32,
}

impl PluginLauncher {
    pub open spec fn wf(&self) -> bool {
        self.plugin_codes.wf()
    }

    /// What `latest_plugin_code` returns.
    pub open spec fn latest_plugin_code_spec(&self) -> Result<CodeRef, LauncherError> {
        match self.plugin_codes.code_at(self.plugin_codes.nonce() as int) {
            Some(c) => Ok(c),
            None => Err(LauncherError::NoCodeRegistered),
        }
    }

    /// Whether `self` and `r` are what `upgrade_plugin_code(caller, code)` on
    /// `prev` gives.
    pub open spec fn upgraded(
        &self,
        prev: PluginLauncher,
        caller: AccountId,
        code: CodeRef,
        r: Result<Version, LauncherError>,
    ) -> bool {
        &&& self.motherspace_id == prev.motherspace_id
        &&& self.owner == prev.owner
        &&& self.launches_count == prev.launches_count
        &&& if caller != prev.motherspace_id {
            r == Err::<Version, LauncherError>(LauncherError::UnAuthorized)
                && self.plugin_codes.codes@ == prev.plugin_codes.codes@
        } else if prev.plugin_codes.nonce() >= u32::MAX {
            r == Err::<Version, LauncherError>(LauncherError::CounterOverflow)
                && self.plugin_codes.codes@ == prev.plugin_codes.codes@
        } else {
            r == Ok::<Version, LauncherError>((prev.plugin_codes.nonce() + 1) as u32)
                && self.plugin_codes.codes@ == prev.plugin_codes.codes@.push(code)
        }
    }

    /// A launcher owned by `owner_id` for the registry `motherspace_id`, with
    /// `plugin_code` as version 1.
    pub fn new(motherspace_id: AccountId, owner_id: AccountId, plugin_code: CodeRef) -> (r: PluginLauncher)
        ensures
            r.wf(),
            r.motherspace_id == motherspace_id,
            r.owner == owner_id,
            r.plugin_codes.codes@ == seq![plugin_code],
            r.launches_count == 0,
    {
        let mut plugin_codes = VersionedCodeLog::new();
        let _ = plugin_codes.append(plugin_code);
        proof {
            assert(plugin_codes.codes@ =~= seq![plugin_code]);
        }
        PluginLauncher { motherspace_id, owner: owner_id, plugin_codes, launches_count: 0 }
    }

    /// The latest plugin code.
    pub fn latest_plugin_code(&self) -> (r: Result<CodeRef, LauncherError>)
        requires
            self.wf(),
        ensures
            r == self.latest_plugin_code_spec(),
    {
        match self.plugin_codes.latest() {
            Some(c) => Ok(c),
            None => Err(LauncherError::NoCodeRegistered),
        }
    }

    /// Registry-only: appends new plugin code and returns its version.
    pub fn upgrade_plugin_code(&mut self, caller: AccountId, code: CodeRef) -> (r: Result<Version, LauncherError>)
        requires
            old(self).wf(),
        ensures
            final(self).wf(),
            final(self).upgraded(*old(self), caller, code, r),
            final(self).motherspace_id == old(self).motherspace_id,
            final(self).owner == old(self).owner,
            final(self).launches_count == old(self).launches_count,
            caller != old(self).motherspace_id ==> r == Err::<Version, LauncherError>(
                LauncherError::UnAuthorized,
            ) && final(self).plugin_codes.codes@ == old(self).plugin_codes.codes@,
            caller == old(self).motherspace_id && old(self).plugin_codes.nonce() >= u32::MAX ==> r
                == Err::<Version, LauncherError>(LauncherError::CounterOverflow)
                && final(self).plugin_codes.codes@ == old(self).plugin_codes.codes@,
            caller == old(self).motherspace_id && old(self).plugin_codes.nonce() < u32::MAX ==> r
                == Ok::<Version, LauncherError>((old(self).plugin_codes.nonce() + 1) as u32)
                && final(self).plugin_codes.codes@ == old(self).plugin_codes.codes@.push(code),
    {
        if caller != self.motherspace_id {
            return Err(LauncherError::UnAuthorized);
        }
        match self.plugin_codes.append(code) {
            Some(v) => Ok(v),
            None => Err(LauncherError::CounterOverflow),
        }
    }

    /// The number of successful launches.
    pub fn launches_count(&self) -> (r: u32)
        ensures
            r == self.launches_count,
    {
        self.launches_count
    }

    /// The registry that owns this launcher.
    pub fn motherspace_id(&self) -> (r: AccountId)
        ensures
            r == self.motherspace_id,
    {
        self.motherspace_id
    }

    /// What the next launch for `space_id` instantiates: the latest code with
    /// salt `launches_count + 1`, never used before.
    pub fn launch_request(&self, space_id: AccountId, launcher_id: AccountId) -> (r: Result<
        LaunchRequest,
        LauncherError,
    >)
        requires
            self.wf(),
        ensures
            self.plugin_codes.nonce() == 0 ==> r == Err::<LaunchRequest, LauncherError>(
                LauncherError::NoCodeRegistered,
            ),
            self.plugin_codes.nonce() > 0 && self.launches_count == u32::MAX ==> r == Err::<
                LaunchRequest,
                LauncherError,
            >(LauncherError::CounterOverflow),
            self.plugin_codes.nonce() > 0 && self.launches_count < u32::MAX ==> r == Ok::<
                LaunchRequest,
                LauncherError,
            >(
                (LaunchRequest {
                    code: self.plugin_codes.codes@.last(),
                    salt: (self.launches_count + 1) as u32,
                    space_id,
                    launcher_id,
                }),
            ),
    {
        let code = match self.plugin_codes.latest() {
            Some(c) => c,
            None => {
                return Err(LauncherError::NoCodeRegistered);
            },
        };
        if self.launches_count == u32::MAX {
            return Err(LauncherError::CounterOverflow);
        }
        Ok(LaunchRequest { code, salt: self.launches_count + 1, space_id, launcher_id })
    }

    /// Completes a launch: `instantiated` is the address of the new plugin
    /// instance, or `None` when instantiating it failed. A success uses up the
    /// salt; a failure leaves the launcher as it was.
    pub fn launch(&mut self, instantiated: Option<AccountId>) -> (r: Result<AccountId, LauncherError>)
        requires
            old(self).wf(),
        ensures
            final(self).wf(),
            final(self).motherspace_id == old(self).motherspace_id,
            final(self).owner == old(self).owner,
            final(self).plugin_codes == old(self).plugin_codes,
            ({
                let e = if old(self).plugin_codes.nonce() == 0 {
                    Some(LauncherError::NoCodeRegistered)
                } else if old(self).launches_count == u32::MAX {
                    Some(LauncherError::CounterOverflow)
                } else if instantiated is None {
                    Some(LauncherError::InstantiationFailed)
                } else {
                    None
                };
                match e {
                    Some(err) => r == Err::<AccountId, LauncherError>(err) && final(self).launches_count
                        == old(self).launches_count,
                    None => r == Ok::<AccountId, LauncherError>(instantiated->Some_0)
                        && final(self).launches_count == old(self).launches_count + 1,
                }
            }),
    {
        if self.plugin_codes.latest().is_none() {
            return Err(LauncherError::NoCodeRegistered);
        }
        if self.launches_count == u32::MAX {
            return Err(LauncherError::CounterOverflow);
        }
        match instantiated {
            None => Err(LauncherError::InstantiationFailed),
            Some(address) => {
                self.launches_count = self.launches_count + 1;
                Ok(address)
            },
        }
    }

    /// Owner-only: hands the launcher to `new_owner`.
    pub fn transfer_ownership(&mut self, caller: AccountId, new_owner: AccountId) -> (r: Result<(), LauncherError>)
        ensures
            final(self).motherspace_id == old(self).motherspace_id,
            final(self).plugin_codes == old(self).plugin_codes,
            final(self).launches_count == old(self).launches_count,
            caller != old(self).owner ==> r == Err::<(), LauncherError>(LauncherError::CallerIsNotOwner)
                && final(self).owner == old(self).owner,
            caller == old(self).owner ==> r is Ok && final(self).owner == new_owner,
    {
        if caller != self.owner {
            return Err(LauncherError::CallerIsNotOwner);
        }
        self.owner = new_owner;
        Ok(())
    }
}

} // verus!
