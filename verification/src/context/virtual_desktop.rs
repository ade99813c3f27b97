//! The decisions of the virtual-desktop adapter, apart from the COM calls:
//! the interface identifiers, who owns the COM apartment after
//! initialisation, and how a membership query's result code and answer
//! become a known or unknown membership.

use vstd::prelude::*;

verus! {

/// A COM GUID as its four plain fields.
#[derive(Debug, Clone, Copy, PartialEq, Eq)]
pub struct Guid {
    pub data1: u32,
    pub data2: u16,
    pub data3: u16,
    pub data4: [u8; 8],
}

/// `CLSID_VirtualDesktopManager`: `{aa509086-5ca9-4c25-8f95-589d3c07b48a}`.
pub fn clsid_virtual_desktop_manager() -> (g: Guid)
    ensures
        g.data1 == 0xaa50_9086u32,
        g.data2 == 0x5ca9u16,
        g.data3 == 0x4c25u16,
        g.data4@ == seq![0x8fu8, 0x95u8, 0x58u8, 0x9du8, 0x3cu8, 0x07u8, 0xb4u8, 0x8au8],
{
    Guid {
        data1: 0xaa50_9086,
        data2: 0x5ca9,
        data3: 0x4c25,
        data4: [0x8f, 0x95, 0x58, 0x9d, 0x3c, 0x07, 0xb4, 0x8a],
    }
}

/// `IID_IVirtualDesktopManager`: `{a5cd92ff-29be-454c-8d04-d82879fb3f1b}`.
pub fn iid_ivirtual_desktop_manager() -> (g: Guid)
    ensures
        g.data1 == 0xa5cd_92ffu32,
        g.data2 == 0x29beu16,
        g.data3 == 0x454cu16,
        g.data4@ == seq![0x8du8, 0x04u8, 0xd8u8, 0x28u8, 0x79u8, 0xfbu8, 0x3fu8, 0x1bu8],
{
    Guid {
        data1: 0xa5cd_92ff,
        data2: 0x29be,
        data3: 0x454c,
        data4: [0x8d, 0x04, 0xd8, 0x28, 0x79, 0xfb, 0x3f, 0x1b],
    }
}

/// `RPC_E_CHANGED_MODE` (0x80010106): the apartment already exists in another
/// mode. It is usable, but not ours to tear down.
pub const RPC_E_CHANGED_MODE: i32 = -2_147_417_850;

/// `S_OK`.
pub const S_OK: i32 = 0;

/// After apartment initialisation returned `hr`: `Some(true)` when this
/// thread entered the apartment and owes one uninitialisation (`S_OK` and
/// `S_FALSE`, every non-negative code), `Some(false)` when the apartment is
/// usable but belongs to someone else, `None` when it is unusable.
pub fn apartment_ownership(hr: i32) -> (o: Option<bool>)
    ensures
        hr >= 0 ==> o == Some(true),
        hr == RPC_E_CHANGED_MODE ==> o == Some(false),
        hr < 0 && hr != RPC_E_CHANGED_MODE ==> o is None,
{
    if hr >= 0 {
        Some(true)
    } else if hr == RPC_E_CHANGED_MODE {
        Some(false)
    } else {
        None
    }
}

/// Membership of a window from one query's result code and answer: unknown
/// for any code but `S_OK`, otherwise whether the answer is nonzero. A failed
/// query is never read as "not on this desktop".
pub fn membership_from_result(hr: i32, on_current: i32) -> (m: Option<bool>)
    ensures
        hr != S_OK ==> m is None,
        hr == S_OK ==> m == Some(on_current != 0),
{
    if hr != S_OK {
        None
    } else {
        Some(on_current != 0)
    }
}

} // verus!
