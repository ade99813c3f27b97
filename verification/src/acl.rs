//! Whether a filesystem path could be replaced by a principal that is not an
//! administrator, judged from the allow entries of its access-control list.
//!
//! Reading the list is the caller's part; this module decodes security
//! identifiers, walks the entries as read, and combines the verdicts of the
//! executable and of the directory holding it.

use vstd::prelude::*;

verus! {

/// `ACE_HEADER::AceType` of an allow entry.
pub const ACCESS_ALLOWED_ACE_TYPE: u8 = 0;

/// `ACE_HEADER::AceFlags` bit of an entry that applies only to children.
pub const INHERIT_ONLY_ACE: u8 = 0x08;

/// DELETE, WRITE_DAC, WRITE_OWNER, GENERIC_ALL, GENERIC_WRITE: rights that mean
/// the same on any object.
pub const COMMON_REPLACE_RIGHTS: u32 = 0x0001_0000u32 | 0x0004_0000u32 | 0x0008_0000u32
    | 0x1000_0000u32 | 0x4000_0000u32;

/// Rights over the executable file that let a holder change what runs: the
/// common ones, FILE_WRITE_DATA and FILE_APPEND_DATA.
pub const FILE_REPLACE_RIGHTS: u32 = COMMON_REPLACE_RIGHTS | 0x0000_0002u32 | 0x0000_0004u32;

/// Rights over the directory holding it: the common ones, FILE_ADD_FILE and
/// FILE_DELETE_CHILD. The `0x04` bit is absent: on a directory it only allows
/// creating a subdirectory.
pub const DIRECTORY_REPLACE_RIGHTS: u32 = COMMON_REPLACE_RIGHTS | 0x0000_0002u32 | 0x0000_0040u32;

/// What reading a path's access-control list established.
#[derive(Debug, Clone, Copy, PartialEq, Eq, Structural)]
pub enum Verdict {
    /// Every allow entry granting a replacement right belongs to an
    /// administrative principal.
    AdminOnly,
    /// At least one non-administrative principal can replace what is there.
    NonAdminWritable,
    /// The list could not be read, or not walked to the end.
    Unknown,
}

/// `true` when `granted` carries any of the `dangerous` rights.
pub fn mask_permits_replacement(granted: u32, dangerous: u32) -> (b: bool)
    ensures
        b == (granted & dangerous != 0),
{
    granted & dangerous != 0
}

/// The unsigned value of big-endian bytes.
pub open spec fn be_value(b: Seq<u8>) -> int
    decreases b.len(),
{
    if b.len() == 0 {
        0
    } else {
        be_value(b.drop_last()) * 256 + b.last()
    }
}

/// The little-endian `u32` at offset `o`.
pub open spec fn le_u32_at(b: Seq<u8>, o: int) -> int {
    b[o] + b[o + 1] * 256 + b[o + 2] * 65536 + b[o + 3] * 16777216
}

/// A binary SID decodes: revision 1, and long enough for the eight-byte
/// header and the sub-authorities its count byte declares.
pub open spec fn sid_decodes(sid: Seq<u8>) -> bool {
    sid.len() >= 8 && sid[0] == 1 && sid.len() >= 8 + sid[1] * 4
}

/// 256 to the power `n`.
pub open spec fn pow256(n: nat) -> int
    decreases n,
{
    if n == 0 {
        1
    } else {
        256 * pow256((n - 1) as nat)
    }
}

proof fn lemma_be_value_bound(b: Seq<u8>)
    ensures
        0 <= be_value(b) < pow256(b.len()),
    decreases b.len(),
{
    if b.len() > 0 {
        lemma_be_value_bound(b.drop_last());
        let p = pow256((b.len() - 1) as nat);
        assert(be_value(b.drop_last()) * 256 + b.last() < p * 256) by (nonlinear_arith)
            requires
                0 <= be_value(b.drop_last()) < p,
                b.last() < 256,
        ;
    }
}

/// Split a binary SID into its six-byte big-endian identifier authority and
/// its little-endian sub-authorities; `None` when it does not decode.
pub fn sid_authority_and_subs(sid: &[u8]) -> (r: Option<(u64, Vec<u32>)>)
    ensures
        r is Some <==> sid_decodes(sid@),
        r matches Some((authority, subs)) ==> {
            &&& authority == be_value(sid@.subrange(2, 8))
            &&& subs@.len() == sid@[1]
            &&& forall|i: int| 0 <= i < subs@.len() ==> #[trigger] subs@[i] == le_u32_at(sid@, 8 + 4 * i)
        },
{
    if sid.len() < 8 || sid[0] != 1 {
        return None;
    }
    let count = sid[1] as usize;
    if sid.len() < 8 + count * 4 {
        return None;
    }
    let mut authority: u64 = 0;
    let mut k: usize = 2;
    while k < 8
        invariant
            2 <= k <= 8 <= sid@.len(),
            authority == be_value(sid@.subrange(2, k as int)),
        decreases 8 - k,
    {
        proof {
            lemma_be_value_bound(sid@.subrange(2, k as int));
            assert(pow256(5) == 0x100_0000_0000) by {
                assert(pow256(0) == 1);
                assert(pow256(1) == 256);
                assert(pow256(2) == 0x1_0000);
                assert(pow256(3) == 0x100_0000);
                assert(pow256(4) == 0x1_0000_0000);
            }
            if k < 7 {
                assert(pow256((k - 2) as nat) <= pow256(5)) by {
                    assert(pow256(0) == 1);
                    assert(pow256(1) == 256);
                    assert(pow256(2) == 0x1_0000);
                    assert(pow256(3) == 0x100_0000);
                    assert(pow256(4) == 0x1_0000_0000);
                }
            }
            assert(sid@.subrange(2, k + 1).drop_last() =~= sid@.subrange(2, k as int));
        }
        authority = authority * 256 + sid[k] as u64;
        k = k + 1;
    }
    let mut subs: Vec<u32> = Vec::new();
    let mut i: usize = 0;
    while i < count
        invariant
            count == sid@[1],
            8 + count * 4 <= sid@.len(),
            i <= count,
            subs@.len() == i,
            forall|j: int| 0 <= j < i ==> #[trigger] subs@[j] == le_u32_at(sid@, 8 + 4 * j),
        decreases count - i,
    {
        let o = 8 + i * 4;
        let v: u32 = sid[o] as u32 + sid[o + 1] as u32 * 256 + sid[o + 2] as u32 * 65536
            + sid[o + 3] as u32 * 16777216;
        subs.push(v);
        i = i + 1;
    }
    Some((authority, subs))
}

/// The sub-authorities of NT SERVICE\TrustedInstaller.
pub open spec fn trusted_installer_subs() -> Seq<u32> {
    seq![80u32, 956008885u32, 3418522649u32, 1831038044u32, 1853292631u32, 2271478464u32]
}

/// Principals whose write access is already administrative: SYSTEM
/// (S-1-5-18), BUILTIN\Administrators (S-1-5-32-544) and TrustedInstaller.
/// Every other principal counts as non-administrative.
pub open spec fn administrative_principal(authority: u64, subs: Seq<u32>) -> bool {
    authority == 5 && (subs == seq![18u32] || subs == seq![32u32, 544u32] || subs
        == trusted_installer_subs())
}

/// The SID decodes and names an administrative principal.
pub open spec fn sid_administrative(sid: Seq<u8>) -> bool {
    sid_decodes(sid) && administrative_principal(
        be_value(sid.subrange(2, 8)) as u64,
        Seq::new(sid[1] as nat, |i: int| le_u32_at(sid, 8 + 4 * i) as u32),
    )
}

fn subs_equal(subs: &Vec<u32>, expected: &[u32]) -> (b: bool)
    ensures
        b == (subs@ == expected@),
{
    if subs.len() != expected.len() {
        return false;
    }
    let mut i: usize = 0;
    while i < subs.len()
        invariant
            subs@.len() == expected@.len(),
            i <= subs@.len(),
            forall|j: int| 0 <= j < i ==> subs@[j] == expected@[j],
        decreases subs@.len() - i,
    {
        if subs[i] != expected[i] {
            return false;
        }
        i = i + 1;
    }
    assert(subs@ =~= expected@);
    true
}

/// `true` when write access held by this SID is already administrative; an
/// undecodable SID is not administrative.
pub fn sid_is_administrative(sid: &[u8]) -> (b: bool)
    ensures
        b == sid_administrative(sid@),
{
    match sid_authority_and_subs(sid) {
        Some((authority, subs)) => {
            proof {
                let expected = Seq::new(sid@[1] as nat, |i: int| le_u32_at(sid@, 8 + 4 * i) as u32);
                assert(subs@ =~= expected);
            }
            if authority != 5 {
                return false;
            }
            let system: [u32; 1] = [18];
            let admins: [u32; 2] = [32, 544];
            let installer: [u32; 6] = [
                80,
                956008885,
                3418522649,
                1831038044,
                1853292631,
                2271478464,
            ];
            proof {
                assert(system@ =~= seq![18u32]);
                assert(admins@ =~= seq![32u32, 544u32]);
                assert(installer@ =~= trusted_installer_subs());
            }
            subs_equal(&subs, system.as_slice()) || subs_equal(&subs, admins.as_slice())
                || subs_equal(&subs, installer.as_slice())
        },
        None => false,
    }
}

/// One access-control entry as read: header type and flags, access mask,
/// and the SID bytes the entry's size bounds (empty when it has none).
pub struct AceEntry {
    pub ace_type: u8,
    pub ace_flags: u8,
    pub mask: u32,
    pub sid: Vec<u8>,
}

/// What reading a path's discretionary access-control list gave.
pub enum DaclReading {
    /// The list could not be read.
    Unreadable,
    /// A null list, which grants everyone full access.
    Null,
    /// The entries in order; `None` where an entry could not be fetched.
    Entries(Vec<Option<AceEntry>>),
}

/// What one entry settles: an unreadable entry makes the verdict unknown; an
/// effective allow entry granting a replacement right to a non-administrative
/// SID makes it writable; anything else settles nothing.
pub open spec fn entry_verdict(entry: Option<AceEntry>, dangerous: u32) -> Option<Verdict> {
    match entry {
        None => Some(Verdict::Unknown),
        Some(a) => {
            if a.ace_type != ACCESS_ALLOWED_ACE_TYPE || a.ace_flags & INHERIT_ONLY_ACE != 0 || a.mask
                & dangerous == 0 || a.sid@.len() == 0 {
                None
            } else if !sid_administrative(a.sid@) {
                Some(Verdict::NonAdminWritable)
            } else {
                None
            }
        },
    }
}

/// The first entry that settles the verdict decides it; if none does, only
/// administrators can replace the object.
pub open spec fn walk_verdict(entries: Seq<Option<AceEntry>>, dangerous: u32) -> Verdict
    decreases entries.len(),
{
    if entries.len() == 0 {
        Verdict::AdminOnly
    } else {
        match entry_verdict(entries[0], dangerous) {
            Some(v) => v,
            None => walk_verdict(entries.drop_first(), dangerous),
        }
    }
}

pub open spec fn reading_verdict(reading: DaclReading, dangerous: u32) -> Verdict {
    match reading {
        DaclReading::Unreadable => Verdict::Unknown,
        DaclReading::Null => Verdict::NonAdminWritable,
        DaclReading::Entries(v) => walk_verdict(v@, dangerous),
    }
}

/// Decide who can replace an object from its list as read. Deny entries and
/// inherit-only entries are skipped.
pub fn verdict_for(reading: &DaclReading, dangerous: u32) -> (v: Verdict)
    ensures
        v == reading_verdict(*reading, dangerous),
{
    let entries = match reading {
        DaclReading::Unreadable => {
            return Verdict::Unknown;
        },
        DaclReading::Null => {
            return Verdict::NonAdminWritable;
        },
        DaclReading::Entries(v) => v,
    };
    let n = entries.len();
    let mut i: usize = 0;
    assert(entries@.subrange(0, n as int) =~= entries@);
    while i < n
        invariant
            n == entries@.len(),
            i <= n,
            reading_verdict(*reading, dangerous) == walk_verdict(entries@, dangerous),
            walk_verdict(entries@, dangerous) == walk_verdict(
                entries@.subrange(i as int, n as int),
                dangerous,
            ),
        decreases n - i,
    {
        let ghost rest = entries@.subrange(i as int, n as int);
        assert(rest.drop_first() =~= entries@.subrange(i + 1, n as int));
        assert(rest[0] == entries@[i as int]);
        match &entries[i] {
            None => {
                return Verdict::Unknown;
            },
            Some(a) => {
                if a.ace_type == ACCESS_ALLOWED_ACE_TYPE && a.ace_flags & INHERIT_ONLY_ACE == 0
                    && mask_permits_replacement(a.mask, dangerous) && a.sid.len() != 0 {
                    if !sid_is_administrative(a.sid.as_slice()) {
                        return Verdict::NonAdminWritable;
                    }
                }
            },
        }
        i = i + 1;
    }
    assert(entries@.subrange(n as int, n as int).len() == 0);
    Verdict::AdminOnly
}

/// The worse of the file's and the directory's verdicts: writable wins over
/// unknown, unknown over administrator-only.
pub open spec fn worse_verdict(file: Verdict, directory: Option<Verdict>) -> Verdict {
    if file == Verdict::NonAdminWritable || directory == Some(Verdict::NonAdminWritable) {
        Verdict::NonAdminWritable
    } else if file == Verdict::Unknown || directory == Some(Verdict::Unknown) {
        Verdict::Unknown
    } else {
        Verdict::AdminOnly
    }
}

/// Whether a non-administrator could put different bytes where the
/// executable is now, from the verdict on the file and, where it has one, on
/// the directory holding it.
pub fn replaceable_by_non_admin(file: Verdict, directory: Option<Verdict>) -> (v: Verdict)
    ensures
        v == worse_verdict(file, directory),
{
    if file == Verdict::NonAdminWritable || directory == Some(Verdict::NonAdminWritable) {
        Verdict::NonAdminWritable
    } else if file == Verdict::Unknown || directory == Some(Verdict::Unknown) {
        Verdict::Unknown
    } else {
        Verdict::AdminOnly
    }
}

/// Neither check substitutes for the other: a writable file or a writable
/// directory each make the executable replaceable, and administrator-only
/// needs both to be administrator-only.
pub proof fn lemma_worse_verdict_wins(file: Verdict, directory: Option<Verdict>)
    ensures
        file == Verdict::NonAdminWritable ==> worse_verdict(file, directory)
            == Verdict::NonAdminWritable,
        directory == Some(Verdict::NonAdminWritable) ==> worse_verdict(file, directory)
            == Verdict::NonAdminWritable,
        worse_verdict(file, directory) == Verdict::AdminOnly <==> (file == Verdict::AdminOnly && (
        directory is None || directory == Some(Verdict::AdminOnly))),
{
    match directory {
        Some(d) => {
            assert(d == Verdict::AdminOnly || d == Verdict::Unknown || d == Verdict::NonAdminWritable);
        },
        None => {},
    }
    assert(file == Verdict::AdminOnly || file == Verdict::Unknown || file == Verdict::NonAdminWritable);
}

} // verus!
