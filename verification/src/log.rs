//! The warning log's rules apart from the file system: when the active log
//! rotates to its single backup, the backup's name, and the shape of one
//! timestamped line.

use vstd::prelude::*;

use crate::text::push_char;

verus! {

/// Size at which the active log rotates to its one backup, so the two files
/// together stay near twice this.
pub const LOG_MAX_BYTES: u64 = 1_000_000;

/// Whether the next line must first rotate the active log: only when its
/// size is known and at the cap. A log that does not exist yet, or whose size
/// cannot be read, never rotates.
pub fn must_rotate(current_size: Option<u64>) -> (b: bool)
    ensures
        b == (current_size matches Some(n) && n >= LOG_MAX_BYTES),
{
    match current_size {
        Some(n) => n >= LOG_MAX_BYTES,
        None => false,
    }
}

/// The backup's path: the active path with `.old` appended, so a second
/// rotation replaces the one backup instead of adding a generation.
pub fn old_path(path: &str) -> (p: String)
    ensures
        p@ == path@ + ".old"@,
{
    let mut p = String::from_str(path);
    p.append(".old");
    p
}

/// The character of a decimal digit.
pub open spec fn digit_char(d: int) -> char {
    (48 + d) as char
}

/// The decimal digits of `v`, most significant first, without leading
/// zeros.
pub open spec fn decimal(v: nat) -> Seq<char>
    decreases v,
{
    if v < 10 {
        seq![digit_char(v as int)]
    } else {
        decimal(v / 10).push(digit_char((v % 10) as int))
    }
}

/// `v` in decimal, left-padded with zeros to at least `width` characters.
pub open spec fn zero_padded(v: nat, width: nat) -> Seq<char> {
    let d = decimal(v);
    if d.len() < width {
        Seq::new((width - d.len()) as nat, |i: int| '0') + d
    } else {
        d
    }
}

fn decimal_len(v: u16) -> (n: usize)
    ensures
        n == decimal(v as nat).len(),
        1 <= n <= v + 1,
    decreases v,
{
    if v < 10 {
        1
    } else {
        decimal_len(v / 10) + 1
    }
}

fn push_decimal(out: &mut String, v: u16)
    ensures
        final(out)@ == old(out)@ + decimal(v as nat),
    decreases v,
{
    if v >= 10 {
        push_decimal(out, v / 10);
    }
    let d = (v % 10) as u8;
    let c = (48u8 + d) as char;
    assert(c == digit_char((v % 10) as int));
    push_char(out, c);
    proof {
        if v >= 10 {
            assert(decimal(v as nat) == decimal((v / 10) as nat).push(c));
        } else {
            assert(decimal(v as nat) =~= seq![c]);
        }
        assert(final(out)@ =~= old(out)@ + decimal(v as nat));
    }
}

fn push_padded(out: &mut String, v: u16, width: usize)
    ensures
        final(out)@ == old(out)@ + zero_padded(v as nat, width as nat),
{
    let n = decimal_len(v);
    let ghost start = out@;
    let mut k: usize = n;
    while k < width
        invariant
            n <= k,
            n < width ==> k <= width,
            n >= width ==> k == n,
            n == decimal(v as nat).len(),
            out@ == start + Seq::new((k - n) as nat, |i: int| '0'),
        decreases width - k,
    {
        push_char(out, '0');
        proof {
            assert(out@ =~= start + Seq::new((k + 1 - n) as nat, |i: int| '0'));
        }
        k = k + 1;
    }
    let ghost pad = out@;
    push_decimal(out, v);
    proof {
        if n < width {
            assert(k == width);
            assert(out@ =~= start + zero_padded(v as nat, width as nat));
        } else {
            assert(pad =~= start);
            assert(out@ =~= start + zero_padded(v as nat, width as nat));
        }
    }
}

/// A local time as `YYYY-MM-DD HH:MM:SS`, every field zero-padded.
pub open spec fn timestamp_spec(year: u16, month: u16, day: u16, hour: u16, minute: u16, second: u16) -> Seq<char> {
    zero_padded(year as nat, 4) + "-"@ + zero_padded(month as nat, 2) + "-"@ + zero_padded(day as nat, 2)
        + " "@ + zero_padded(hour as nat, 2) + ":"@ + zero_padded(minute as nat, 2) + ":"@
        + zero_padded(second as nat, 2)
}

/// Format a local time as `YYYY-MM-DD HH:MM:SS`.
pub fn format_timestamp(year: u16, month: u16, day: u16, hour: u16, minute: u16, second: u16) -> (s: String)
    ensures
        s@ == timestamp_spec(year, month, day, hour, minute, second),
{
    let mut s = String::new();
    proof {
        reveal_strlit("-");
        reveal_strlit(" ");
        reveal_strlit(":");
    }
    push_padded(&mut s, year, 4);
    push_char(&mut s, '-');
    push_padded(&mut s, month, 2);
    push_char(&mut s, '-');
    push_padded(&mut s, day, 2);
    push_char(&mut s, ' ');
    push_padded(&mut s, hour, 2);
    push_char(&mut s, ':');
    push_padded(&mut s, minute, 2);
    push_char(&mut s, ':');
    push_padded(&mut s, second, 2);
    assert(s@ =~= timestamp_spec(year, month, day, hour, minute, second));
    s
}

/// One log line: the timestamp in brackets, a space, the message, a newline.
pub fn log_line(timestamp: &str, message: &str) -> (line: String)
    ensures
        line@ == "["@ + timestamp@ + "] "@ + message@ + "\n"@,
{
    let mut line = String::from_str("[");
    line.append(timestamp);
    line.append("] ");
    line.append(message);
    line.append("\n");
    line
}

} // verus!
