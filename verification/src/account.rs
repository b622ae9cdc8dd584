use vstd::prelude::*;

verus! {

/// A host identity: the 160-bit account that initiates a call or receives a
/// transfer, held as plain values (the high 32 bits and the low 128 bits of
/// the big-endian address). Identities are only ever compared for equality;
/// there is no distinguished "absent" identity — absence is always an
/// explicit `Option` or a failed lookup.
#[derive(Clone, Copy, PartialEq, Eq, Structural, Debug)]
pub struct AccountId {
    pub hi: u32,
    pub lo: u128,
}

/// The capability class a page is registered under. A page's role is fixed at
/// registration and gates which operations may target it.
#[derive(Clone, Copy, PartialEq, Eq, Structural, Debug)]
pub enum Role {
    Creator,
    Business,
    Crowdfunder,
}

/// The numeric encoding of a role used on the call surface: 0 = Creator,
/// 1 = Business, 2 = Crowdfunder; anything above 2 is no role.
pub open spec fn spec_role_of(code: u8) -> Option<Role> {
    if code == 0 {
        Some(Role::Creator)
    } else if code == 1 {
        Some(Role::Business)
    } else if code == 2 {
        Some(Role::Crowdfunder)
    } else {
        None
    }
}

/// Decode a numeric role; `None` for any code above 2.
pub fn role_of(code: u8) -> (r: Option<Role>)
    ensures
        r == spec_role_of(code),
{
    if code == 0 {
        Some(Role::Creator)
    } else if code == 1 {
        Some(Role::Business)
    } else if code == 2 {
        Some(Role::Crowdfunder)
    } else {
        None
    }
}

} // verus!
