//! Character-level helpers: ASCII case folding, Unicode whitespace, and
//! case-insensitive comparison of text and of raw UTF-16 units.

use vstd::prelude::*;

verus! {

/// ASCII lowercase of `c`; every other character is unchanged.
pub open spec fn lower(c: char) -> char {
    if 'A' <= c && c <= 'Z' {
        ((c as u32 + 32) as u8) as char
    } else {
        c
    }
}

/// ASCII lowercase of every character of `s`.
pub open spec fn lower_seq(s: Seq<char>) -> Seq<char> {
    s.map_values(|c: char| lower(c))
}

/// `a` and `b` are equal once ASCII letters are folded to one case.
pub open spec fn eq_ignore_case(a: Seq<char>, b: Seq<char>) -> bool {
    a.len() == b.len() && forall|i: int| 0 <= i < a.len() ==> lower(#[trigger] a[i]) == lower(b[i])
}

/// ASCII lowercase of a UTF-16 unit; every other unit is unchanged.
pub open spec fn lower_unit(u: u16) -> u16 {
    if 65 <= u <= 90 {
        (u + 32) as u16
    } else {
        u
    }
}

/// ASCII lowercase of every unit of `w`.
pub open spec fn lower_units(w: Seq<u16>) -> Seq<u16> {
    w.map_values(|u: u16| lower_unit(u))
}

/// The UTF-16 encoding of `s`: one unit for a character below U+10000, a
/// surrogate pair otherwise.
pub open spec fn utf16_units(s: Seq<char>) -> Seq<u16>
    decreases s.len(),
{
    if s.len() == 0 {
        Seq::empty()
    } else {
        utf16_units(s.drop_last()) + char_units(s.last())
    }
}

/// The UTF-16 units of one character.
pub open spec fn char_units(c: char) -> Seq<u16> {
    let v = c as u32;
    if v < 0x10000 {
        seq![v as u16]
    } else {
        seq![(0xd800 + (v - 0x10000) / 0x400) as u16, (0xdc00 + (v - 0x10000) % 0x400) as u16]
    }
}

/// `wide` spells `entry` ignoring ASCII case: the UTF-16 encoding of the
/// entry and the units of `wide` agree once ASCII letters are folded. A
/// character outside ASCII matches only its own unit or surrogate pair.
pub open spec fn wide_eq_ignore_case(entry: Seq<char>, wide: Seq<u16>) -> bool {
    utf16_units(lower_seq(entry)) == lower_units(wide)
}

/// The encoding of a prefix is a prefix of the encoding.
pub proof fn lemma_utf16_take(s: Seq<char>, i: int)
    requires
        0 <= i < s.len(),
    ensures
        utf16_units(s.take(i + 1)) == utf16_units(s.take(i)) + char_units(s[i]),
{
    assert(s.take(i + 1).drop_last() =~= s.take(i));
}

/// The encoding of `s` starts with the encoding of each of its prefixes.
pub proof fn lemma_utf16_prefix(s: Seq<char>, i: int)
    requires
        0 <= i <= s.len(),
    ensures
        utf16_units(s.take(i)).len() <= utf16_units(s).len(),
        utf16_units(s).take(utf16_units(s.take(i)).len() as int) == utf16_units(s.take(i)),
    decreases s.len() - i,
{
    if i == s.len() {
        assert(s.take(i) =~= s);
    } else {
        lemma_utf16_prefix(s, i + 1);
        lemma_utf16_take(s, i);
        let a = utf16_units(s.take(i));
        let b = utf16_units(s.take(i + 1));
        assert(b.take(a.len() as int) =~= a);
        assert(utf16_units(s).take(a.len() as int) =~= utf16_units(s).take(b.len() as int).take(
            a.len() as int,
        ));
    }
}

proof fn lemma_char_scalar_bound(c: char)
    ensures
        (c as u32) <= 0x10ffff,
        !(0xd800 <= (c as u32) <= 0xdfff),
{
    vstd::utf8::char_is_scalar(c);
}

/// A character's units: a lone unit is never a low surrogate, and the
/// second unit of a pair always is.
proof fn lemma_char_units_shape(c: char)
    ensures
        (c as u32) < 0x10000 ==> char_units(c).len() == 1 && !(0xdc00 <= char_units(c)[0] <= 0xdfff)
            && char_units(c)[0] == (c as u32) as u16,
        (c as u32) >= 0x10000 ==> char_units(c).len() == 2 && 0xdc00 <= char_units(c)[1] <= 0xdfff
            && 0xd800 <= char_units(c)[0] <= 0xdbff,
{
    lemma_char_scalar_bound(c);
}

/// Two characters with the same units are the same character.
proof fn lemma_char_units_injective(a: char, b: char)
    requires
        char_units(a) == char_units(b),
    ensures
        a == b,
{
    lemma_char_scalar_bound(a);
    lemma_char_scalar_bound(b);
    lemma_char_units_shape(a);
    lemma_char_units_shape(b);
    let x = a as u32;
    let y = b as u32;
    if x < 0x10000 {
        assert(char_units(a)[0] == char_units(b)[0]);
        assert(y < 0x10000);
        assert(x == y);
    } else {
        assert(y >= 0x10000);
        assert(char_units(a)[0] == char_units(b)[0]);
        assert(char_units(a)[1] == char_units(b)[1]);
        assert((x - 0x10000) / 0x400 == (y - 0x10000) / 0x400);
        assert((x - 0x10000) % 0x400 == (y - 0x10000) % 0x400);
        assert(x == y);
    }
    vstd::utf8::char_u32_cast(a, x);
    vstd::utf8::char_u32_cast(b, y);
}

/// The UTF-16 encoding is injective.
pub proof fn lemma_utf16_injective(a: Seq<char>, b: Seq<char>)
    requires
        utf16_units(a) == utf16_units(b),
    ensures
        a == b,
    decreases a.len() + b.len(),
{
    if a.len() == 0 || b.len() == 0 {
        if a.len() > 0 {
            lemma_char_units_shape(a.last());
            assert(utf16_units(a).len() > 0);
        }
        if b.len() > 0 {
            lemma_char_units_shape(b.last());
            assert(utf16_units(b).len() > 0);
        }
        assert(a =~= b);
    } else {
        let ra = utf16_units(a.drop_last());
        let rb = utf16_units(b.drop_last());
        let ca = char_units(a.last());
        let cb = char_units(b.last());
        let u = utf16_units(a);
        lemma_char_units_shape(a.last());
        lemma_char_units_shape(b.last());
        assert(u == ra + ca);
        assert(u == rb + cb);
        assert(u[u.len() - 1] == ca[ca.len() - 1]);
        assert(u[u.len() - 1] == cb[cb.len() - 1]);
        assert(ca.len() == cb.len());
        assert(ca =~= u.subrange(ra.len() as int, u.len() as int));
        assert(cb =~= u.subrange(rb.len() as int, u.len() as int));
        assert(ra =~= u.subrange(0, ra.len() as int));
        assert(rb =~= u.subrange(0, rb.len() as int));
        lemma_char_units_injective(a.last(), b.last());
        lemma_utf16_injective(a.drop_last(), b.drop_last());
        assert(a =~= a.drop_last().push(a.last()));
        assert(b =~= b.drop_last().push(b.last()));
    }
}

/// Folding the units of an encoding is encoding the folded text.
pub proof fn lemma_lower_units_utf16(s: Seq<char>)
    ensures
        lower_units(utf16_units(s)) == utf16_units(lower_seq(s)),
    decreases s.len(),
{
    if s.len() > 0 {
        lemma_lower_units_utf16(s.drop_last());
        assert(lower_seq(s).drop_last() =~= lower_seq(s.drop_last()));
        let c = s.last();
        assert(lower_seq(s).last() == lower(c));
        lemma_char_units_shape(c);
        lemma_char_units_shape(lower(c));
        if 'A' <= c && c <= 'Z' {
            assert(lower(c) as u32 == c as u32 + 32);
        }
        assert(lower_units(char_units(c)) =~= char_units(lower(c)));
        assert(lower_units(utf16_units(s)) =~= lower_units(utf16_units(s.drop_last())) + lower_units(
            char_units(c),
        ));
    }
}

/// Comparing an entry with the UTF-16 encoding of a text is comparing the
/// two texts ignoring ASCII case, for every entry and text.
pub proof fn lemma_wide_eq_is_eq_ignore_case(entry: Seq<char>, s: Seq<char>)
    ensures
        wide_eq_ignore_case(entry, utf16_units(s)) == eq_ignore_case(entry, s),
{
    lemma_lower_units_utf16(s);
    if wide_eq_ignore_case(entry, utf16_units(s)) {
        lemma_utf16_injective(lower_seq(entry), lower_seq(s));
        assert forall|i: int| 0 <= i < entry.len() implies lower(#[trigger] entry[i]) == lower(
            s[i],
        ) by {
            assert(lower_seq(entry)[i] == lower_seq(s)[i]);
        }
    }
    if eq_ignore_case(entry, s) {
        assert(lower_seq(entry) =~= lower_seq(s));
    }
}

/// Unicode `White_Space`, the set `str::trim` removes.
pub open spec fn is_space(c: char) -> bool {
    ('\u{9}' <= c && c <= '\u{d}') || c == ' ' || c == '\u{85}' || c == '\u{a0}' || c
        == '\u{1680}' || ('\u{2000}' <= c && c <= '\u{200a}') || c == '\u{2028}' || c
        == '\u{2029}' || c == '\u{202f}' || c == '\u{205f}' || c == '\u{3000}'
}

pub fn ascii_lower(c: char) -> (r: char)
    ensures
        r == lower(c),
{
    if 'A' <= c && c <= 'Z' {
        ((c as u8) + 32) as char
    } else {
        c
    }
}

pub fn is_whitespace(c: char) -> (b: bool)
    ensures
        b == is_space(c),
{
    ('\u{9}' <= c && c <= '\u{d}') || c == ' ' || c == '\u{85}' || c == '\u{a0}' || c
        == '\u{1680}' || ('\u{2000}' <= c && c <= '\u{200a}') || c == '\u{2028}' || c
        == '\u{2029}' || c == '\u{202f}' || c == '\u{205f}' || c == '\u{3000}'
}

/// Appends `c` to `s`.
///
/// Wraps `String::push`, which std documents as appending the given `char` to
/// the end of the string; the contract states exactly that over the view.
#[verifier::external_body]
pub fn push_char(s: &mut String, c: char)
    ensures
        final(s)@ == old(s)@.push(c),
{
    s.push(c)
}

/// The characters `from..to` of `s`, lowercased, as a new string.
pub fn lowercase_range(s: &str, from: usize, to: usize) -> (r: String)
    requires
        from <= to <= s@.len(),
    ensures
        r@ == lower_seq(s@.subrange(from as int, to as int)),
{
    let mut out = String::new();
    let mut i = from;
    while i < to
        invariant
            from <= i <= to <= s@.len(),
            out@ == lower_seq(s@.subrange(from as int, i as int)),
        decreases to - i,
    {
        let c = s.get_char(i);
        push_char(&mut out, ascii_lower(c));
        proof {
            assert(s@.subrange(from as int, i + 1) =~= s@.subrange(from as int, i as int).push(c));
            assert(out@ =~= lower_seq(s@.subrange(from as int, i + 1)));
        }
        i = i + 1;
    }
    out
}

/// `a` and `b` are equal ignoring ASCII case.
pub fn str_eq_ignore_ascii_case(a: &str, b: &str) -> (r: bool)
    ensures
        r == eq_ignore_case(a@, b@),
{
    let n = a.unicode_len();
    if n != b.unicode_len() {
        return false;
    }
    let mut i: usize = 0;
    while i < n
        invariant
            n == a@.len() == b@.len(),
            i <= n,
            forall|j: int| 0 <= j < i ==> lower(#[trigger] a@[j]) == lower(b@[j]),
        decreases n - i,
    {
        if ascii_lower(a.get_char(i)) != ascii_lower(b.get_char(i)) {
            return false;
        }
        i = i + 1;
    }
    true
}

fn unit_lower(u: u16) -> (r: u16)
    ensures
        r == lower_unit(u),
{
    if 65 <= u && u <= 90 {
        u + 32
    } else {
        u
    }
}

/// `wide` spells `entry` ignoring ASCII case, without building a string:
/// each entry character is encoded on the fly and compared unit by unit.
pub fn wide_eq_entry(entry: &str, wide: &[u16]) -> (r: bool)
    ensures
        r == wide_eq_ignore_case(entry@, wide@),
{
    let n = entry.unicode_len();
    let m = wide.len();
    let ghost e = lower_seq(entry@);
    let ghost w = lower_units(wide@);
    let mut i: usize = 0;
    let mut k: usize = 0;
    while i < n
        invariant
            n == entry@.len(),
            m == wide@.len(),
            e == lower_seq(entry@),
            w == lower_units(wide@),
            i <= n,
            k <= m,
            utf16_units(e.take(i as int)) == w.take(k as int),
        decreases n - i,
    {
        let c = ascii_lower(entry.get_char(i));
        proof {
            assert(e[i as int] == c);
            lemma_utf16_take(e, i as int);
            lemma_utf16_prefix(e, i + 1);
            lemma_char_units_shape(c);
            lemma_char_scalar_bound(c);
        }
        let ghost before = utf16_units(e.take(i as int));
        let ghost after = utf16_units(e.take(i + 1));
        let cu = c as u32;
        if cu < 0x10000 {
            if k >= m || unit_lower(wide[k]) != cu as u16 {
                proof {
                    if utf16_units(e) == w {
                        assert(after[k as int] == cu as u16);
                        assert(utf16_units(e)[k as int] == after[k as int]);
                        assert(w[k as int] == lower_unit(wide@[k as int]));
                    }
                }
                return false;
            }
            proof {
                assert(w.take(k + 1) =~= w.take(k as int).push(w[k as int]));
                assert(after =~= before.push(cu as u16));
            }
            k = k + 1;
        } else {
            let v = cu - 0x10000;
            let hi = (0xd800 + v / 0x400) as u16;
            let lo = (0xdc00 + v % 0x400) as u16;
            if m - k < 2 || unit_lower(wide[k]) != hi || unit_lower(wide[k + 1]) != lo {
                proof {
                    if utf16_units(e) == w {
                        assert(after[k as int] == hi);
                        assert(after[k + 1] == lo);
                        assert(utf16_units(e)[k as int] == after[k as int]);
                        assert(utf16_units(e)[k + 1] == after[k + 1]);
                        assert(w[k as int] == lower_unit(wide@[k as int]));
                        assert(w[k + 1] == lower_unit(wide@[k + 1]));
                    }
                }
                return false;
            }
            proof {
                assert(w.take(k + 2) =~= w.take(k as int).push(w[k as int]).push(w[k + 1]));
                assert(after =~= before.push(hi).push(lo));
            }
            k = k + 2;
        }
        i = i + 1;
    }
    proof {
        assert(e.take(n as int) =~= e);
    }
    if k == m {
        proof {
            assert(w.take(m as int) =~= w);
        }
        true
    } else {
        false
    }
}

/// `lo..hi` is `s` with leading and trailing Unicode whitespace removed.
pub open spec fn is_trim_range(s: Seq<char>, lo: int, hi: int) -> bool {
    &&& 0 <= lo <= hi <= s.len()
    &&& forall|j: int| 0 <= j < lo ==> is_space(#[trigger] s[j])
    &&& forall|j: int| hi <= j < s.len() ==> is_space(#[trigger] s[j])
    &&& (lo < s.len() ==> !is_space(s[lo]))
    &&& (lo < hi ==> !is_space(s[hi - 1]))
}

pub open spec fn trimmed(s: Seq<char>) -> Seq<char> {
    let (lo, hi) = choose|lo: int, hi: int| is_trim_range(s, lo, hi);
    s.subrange(lo, hi)
}

pub proof fn lemma_trim_unique(s: Seq<char>, lo: int, hi: int)
    requires
        is_trim_range(s, lo, hi),
    ensures
        trimmed(s) == s.subrange(lo, hi),
{
    let (a, b) = choose|a: int, b: int| is_trim_range(s, a, b);
    assert(is_trim_range(s, a, b));
    if a < lo {
        assert(is_space(s[a]));
    }
    if lo < a {
        assert(is_space(s[lo]));
    }
    assert(a == lo);
    if b < hi {
        assert(is_space(s[hi - 1]));
    }
    if hi < b {
        assert(is_space(s[b - 1]));
    }
}

/// The bounds of `s[from..]` with leading and trailing whitespace removed.
pub fn trim_bounds(s: &str, from: usize) -> (r: (usize, usize))
    requires
        from <= s@.len(),
    ensures
        from <= r.0 <= r.1 <= s@.len(),
        trimmed(s@.subrange(from as int, s@.len() as int)) == s@.subrange(r.0 as int, r.1 as int),
{
    let n = s.unicode_len();
    let mut lo = from;
    while lo < n
        invariant
            from <= lo <= n == s@.len(),
            forall|j: int| from <= j < lo ==> is_space(#[trigger] s@[j]),
        ensures
            from <= lo <= n,
            forall|j: int| from <= j < lo ==> is_space(#[trigger] s@[j]),
            lo < n ==> !is_space(s@[lo as int]),
        decreases n - lo,
    {
        if !is_whitespace(s.get_char(lo)) {
            break;
        }
        lo = lo + 1;
    }
    let mut hi = n;
    while hi > lo
        invariant
            from <= lo <= hi <= n == s@.len(),
            forall|j: int| hi <= j < n ==> is_space(#[trigger] s@[j]),
        ensures
            from <= lo <= hi <= n,
            forall|j: int| hi <= j < n ==> is_space(#[trigger] s@[j]),
            lo < hi ==> !is_space(s@[hi - 1]),
        decreases hi,
    {
        if !is_whitespace(s.get_char(hi - 1)) {
            break;
        }
        hi = hi - 1;
    }
    proof {
        let b = s@.subrange(from as int, n as int);
        let f = from as int;
        assert(is_trim_range(b, lo - f, hi - f)) by {
            assert forall|j: int| 0 <= j < lo - f implies is_space(#[trigger] b[j]) by {
                assert(b[j] == s@[j + f]);
            }
            assert forall|j: int| hi - f <= j < b.len() implies is_space(#[trigger] b[j]) by {
                assert(b[j] == s@[j + f]);
            }
        }
        lemma_trim_unique(b, lo - f, hi - f);
        assert(b.subrange(lo - f, hi - f) =~= s@.subrange(lo as int, hi as int));
    }
    (lo, hi)
}

} // verus!
