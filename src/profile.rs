use vstd::prelude::*;
use crate::ids::AccountId;

verus! {

/// Seconds in one day; subscription durations are given in days.
pub const SECS_PER_DAY: u64 = 86400;

/// Bounds on a space name and on a member's display name, in bytes.
pub const MIN_NAME_LEN: usize = 3;
pub const MAX_NAME_LEN: usize = 30;

/// Bound on a space description, in bytes.
pub const MAX_DESC_LEN: usize = 200;

/// Errors of a space instance.
#[derive(Debug, PartialEq, Eq)]
pub enum SpaceError {
    /// The caller is not the registry that owns this space.
    UnAuthorized,
    /// The caller is not the owner of this space.
    CallerIsNotOwner,
    /// The space name is shorter than `MIN_NAME_LEN` bytes.
    NameTooShort,
    /// The space name is longer than `MAX_NAME_LEN` bytes.
    NameTooLong,
    /// The space description is longer than `MAX_DESC_LEN` bytes.
    DescriptionTooLong,
    /// A display name is shorter than `MIN_NAME_LEN` bytes.
    DisplayNameTooShort,
    /// A display name is longer than `MAX_NAME_LEN` bytes.
    DisplayNameTooLong,
    /// The account is already an active (or, for joining, inactive) member.
    MemberExisted(AccountId),
    /// The value sent does not cover the price.
    InsufficientPayment,
    /// Returning the escrow of the request to the account failed.
    CannotRefundPayment(AccountId, u32),
    /// The caller is not an active member.
    NotActiveMember,
    /// The space owner cannot leave.
    OwnerCannotLeave,
    /// The space does not accept paid joining.
    PayToJoinNotSupported,
    /// The space does not accept membership requests.
    RequestToJoinNotSupported,
    /// The account already has a pending request.
    PendingRequestExisted,
    /// The pending request queue is over its limit.
    TooManyPendingRequests,
    /// The caller has no pending request.
    RequestNotFound,
    /// The plugin kind is already attached.
    DuplicatePlugin,
    /// The plugin kind was never attached.
    PluginNotFound,
    /// A counter or a timestamp would overflow.
    CounterOverflow,
}

/// Where a space logo is found.
#[derive(Clone, Debug, PartialEq, Eq)]
pub enum ImageSource {
    IpfsCid(String),
    Url(String),
}

/// The public profile of a space.
#[derive(Clone, Debug, PartialEq, Eq)]
pub struct SpaceInfo {
    pub name: String,
    pub desc: Option<String>,
    pub logo: Option<ImageSource>,
}

/// How accounts can become members of a space.
#[derive(Clone, Copy, Debug, PartialEq, Eq, Structural)]
pub enum RegistrationType {
    PayToJoin,
    RequestToJoin,
    InviteOnly,
}

/// What membership costs; a subscription duration is in days.
#[derive(Clone, Copy, Debug, PartialEq, Eq, Structural)]
pub enum Pricing {
    Free,
    OneTimePaid { price: u128 },
    Subscription { price: u128, duration: u32 },
}

/// Registration mode and pricing of a space.
#[derive(Clone, Copy, Debug, PartialEq, Eq, Structural)]
pub struct SpaceConfig {
    pub registration: RegistrationType,
    pub pricing: Pricing,
}

/// The length of a string in UTF-8 bytes, as `str::len` reports it.
pub open spec fn byte_len(s: Seq<char>) -> usize {
    vstd::utf8::encode_utf8(s).len() as usize
}

/// Whether a string is an acceptable name: 3 to 30 bytes.
pub open spec fn name_ok(s: Seq<char>) -> bool {
    MIN_NAME_LEN <= byte_len(s) <= MAX_NAME_LEN
}

/// Whether a space profile is acceptable.
pub open spec fn info_ok(info: SpaceInfo) -> bool {
    &&& name_ok(info.name@)
    &&& info.desc matches Some(d) ==> byte_len(d@) <= MAX_DESC_LEN
}

/// The error that profile validation reports, checked in this order:
/// name too long, name too short, description too long.
pub open spec fn info_error(info: SpaceInfo) -> SpaceError {
    if byte_len(info.name@) > MAX_NAME_LEN {
        SpaceError::NameTooLong
    } else if byte_len(info.name@) < MIN_NAME_LEN {
        SpaceError::NameTooShort
    } else {
        SpaceError::DescriptionTooLong
    }
}

/// The lifetime of a membership under a pricing: subscriptions last their
/// duration, every other membership never expires.
pub open spec fn ttl_of(pricing: Pricing) -> Option<u64> {
    match pricing {
        Pricing::Subscription { duration, .. } => Some((SECS_PER_DAY * duration as u64) as u64),
        _ => None,
    }
}

/// Whether `paid` covers the price of joining.
pub open spec fn payment_ok(pricing: Pricing, paid: u128) -> bool {
    match pricing {
        Pricing::Free => true,
        Pricing::OneTimePaid { price } => paid >= price,
        Pricing::Subscription { price, .. } => paid >= price,
    }
}

/// The configuration stored for a requested one: invite-only spaces are
/// always free, and no request means pay-to-join and free.
pub open spec fn normalized(config: Option<SpaceConfig>) -> SpaceConfig {
    match config {
        None => SpaceConfig { registration: RegistrationType::PayToJoin, pricing: Pricing::Free },
        Some(c) => if c.registration == RegistrationType::InviteOnly {
            SpaceConfig { registration: c.registration, pricing: Pricing::Free }
        } else {
            c
        },
    }
}

/// The length of `s` in bytes.
pub fn str_byte_len(s: &String) -> (r: usize)
    ensures
        r == byte_len(s@),
{
    s.as_str().len()
}

impl SpaceConfig {
    /// The lifetime of a membership granted under this configuration.
    pub fn ttl(&self) -> (r: Option<u64>)
        ensures
            r == ttl_of(self.pricing),
    {
        match self.pricing {
            Pricing::Subscription { duration, .. } => {
                assert(SECS_PER_DAY * duration as u64 <= u64::MAX) by (nonlinear_arith)
                    requires
                        duration <= u32::MAX,
                ;
                Some(SECS_PER_DAY * duration as u64)
            },
            _ => None,
        }
    }

    /// The configuration of a space created without one.
    pub fn default_config() -> (r: SpaceConfig)
        ensures
            r == normalized(None),
    {
        SpaceConfig { registration: RegistrationType::PayToJoin, pricing: Pricing::Free }
    }

    /// The configuration stored for a requested one.
    pub fn normalize(config: Option<SpaceConfig>) -> (r: SpaceConfig)
        ensures
            r == normalized(config),
    {
        match config {
            None => SpaceConfig::default_config(),
            Some(c) => {
                if c.registration == RegistrationType::InviteOnly {
                    SpaceConfig { registration: c.registration, pricing: Pricing::Free }
                } else {
                    c
                }
            },
        }
    }
}

/// Whether `paid` covers the price of joining under `pricing`.
pub fn is_valid_payment(pricing: Pricing, paid: u128) -> (r: bool)
    ensures
        r == payment_ok(pricing, paid),
{
    match pricing {
        Pricing::Free => true,
        Pricing::OneTimePaid { price } => paid >= price,
        Pricing::Subscription { price, .. } => paid >= price,
    }
}

/// Checks a space profile: a name of 3 to 30 bytes and a description of at
/// most 200 bytes.
pub fn validate_info(info: &SpaceInfo) -> (r: Result<(), SpaceError>)
    ensures
        r is Ok <==> info_ok(*info),
        r is Err ==> r == Err::<(), SpaceError>(info_error(*info)),
{
    let n = str_byte_len(&info.name);
    if n > MAX_NAME_LEN {
        return Err(SpaceError::NameTooLong);
    }
    if n < MIN_NAME_LEN {
        return Err(SpaceError::NameTooShort);
    }
    match &info.desc {
        Some(d) => {
            if str_byte_len(d) > MAX_DESC_LEN {
                return Err(SpaceError::DescriptionTooLong);
            }
        },
        None => {},
    }
    Ok(())
}

} // verus!
