//! UTF-16 buffers for wide-string system interfaces.

use vstd::prelude::*;

use crate::text::utf16_units;

verus! {

/// Append the UTF-16 encoding of `c` to `out`.
fn push_utf16(out: &mut Vec<u16>, c: char)
    ensures
        final(out)@ == old(out)@ + utf16_units(seq![c]),
{
    let v = c as u32;
    proof {
        vstd::utf8::char_is_scalar(c);
        assert(seq![c].drop_last() =~= Seq::<char>::empty());
        assert(seq![c].last() == c);
        assert(utf16_units(Seq::<char>::empty()) =~= Seq::<u16>::empty());
        assert(utf16_units(seq![c].drop_last()) =~= Seq::<u16>::empty());
    }
    if v < 0x10000 {
        out.push(v as u16);
        proof {
            assert(utf16_units(seq![c]) =~= seq![v as u16]);
        }
    } else {
        let w = v - 0x10000;
        assert(w / 0x400 <= 0x3ff);
        out.push((0xd800 + w / 0x400) as u16);
        out.push((0xdc00 + w % 0x400) as u16);
        proof {
            assert(utf16_units(seq![c]) =~= seq![(0xd800 + w / 0x400) as u16, (0xdc00 + w % 0x400) as u16]);
        }
    }
}

/// The UTF-16 encoding of `s`, NUL-terminated.
pub fn wide(s: &str) -> (w: Vec<u16>)
    ensures
        w@ == utf16_units(s@).push(0u16),
{
    let mut out: Vec<u16> = Vec::new();
    let n = s.unicode_len();
    let mut i: usize = 0;
    while i < n
        invariant
            n == s@.len(),
            i <= n,
            out@ == utf16_units(s@.take(i as int)),
        decreases n - i,
    {
        let c = s.get_char(i);
        push_utf16(&mut out, c);
        proof {
            let t = s@.take(i + 1);
            assert(t.drop_last() =~= s@.take(i as int));
            assert(t.last() == c);
            assert(utf16_units(seq![c]) == utf16_units(Seq::<char>::empty()) + utf16_units(seq![c]));
            assert(seq![c].drop_last() =~= Seq::<char>::empty());
            assert(out@ =~= utf16_units(t));
        }
        i = i + 1;
    }
    proof {
        assert(s@.take(n as int) =~= s@);
    }
    out.push(0);
    out
}

/// Copy the UTF-16 encoding of `s` into a fixed buffer, truncated to leave
/// room for the terminating NUL; a zero-length buffer is left alone.
pub fn fill_wide_buf<const N: usize>(buf: &mut [u16; N], s: &str)
    ensures
        N == 0 ==> final(buf)@ == old(buf)@,
        N > 0 ==> {
            let units = utf16_units(s@);
            let k = if units.len() < N - 1 {
                units.len() as int
            } else {
                N - 1
            };
            &&& final(buf)@.len() == N
            &&& forall|j: int| 0 <= j < k ==> #[trigger] final(buf)@[j] == units[j]
            &&& final(buf)@[k] == 0
            &&& forall|j: int| k < j < N ==> #[trigger] final(buf)@[j] == old(buf)@[j]
        },
{
    if N == 0 {
        return;
    }
    let units = wide(s);
    let ghost u = utf16_units(s@);
    let limit = N - 1;
    let mut i: usize = 0;
    while i < limit && i + 1 < units.len()
        invariant
            units@ == u.push(0u16),
            i <= limit == N - 1,
            i <= u.len(),
            buf@.len() == N,
            forall|j: int| 0 <= j < i ==> #[trigger] buf@[j] == u[j],
            forall|j: int| i <= j < N ==> #[trigger] buf@[j] == old(buf)@[j],
        decreases limit - i,
    {
        buf.set(i, units[i]);
        i = i + 1;
    }
    buf.set(i, 0);
}

} // verus!
