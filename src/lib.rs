//! Community spaces: a registry that deploys space instances from versioned
//! code, a per-space membership ledger with paid and request-based joining,
//! and launchers that instantiate plugins attached to a space.
//!
//! Every contract is a plain state machine: the caller, the block time, the
//! value sent with a message and the outcome of host operations (transfers,
//! instantiations, launches) are passed in as arguments, so that each message
//! is a function from state and inputs to a new state and a result.
pub mod ids;
pub mod code_log;
pub mod profile;
pub mod space;
pub mod launcher;
pub mod motherspace;
pub mod plugin;
pub mod laws;

pub use ids::{AccountId, CodeRef, PluginId};
pub use code_log::{VersionedCodeLog, Version};
pub use profile::{
    ImageSource, SpaceInfo, RegistrationType, Pricing, SpaceConfig, SpaceError, SECS_PER_DAY,
    MAX_NAME_LEN, MIN_NAME_LEN, MAX_DESC_LEN,
};
pub use space::{
    Space, Timestamp, Balance, RequestId, MemberInfo, MembershipRequest, Pagination, MemberRecord,
    ApprovalSubmissionResult, MemberStatus, PluginInfo, MAX_PENDING_REQUESTS, MAX_PER_PAGE,
};
pub use launcher::{PluginLauncher, LauncherError, LaunchRequest};
pub use motherspace::{MotherSpace, MotherSpaceError, DeployRequest};
pub use plugin::{Flipper, PluginError, only_active_member, only_space_owner};
