//! Verified construction of the status labels the sources write.

use vstd::prelude::*;
use vstd::string::StringExecFns;

verus! {

/// The character of one decimal digit.
pub open spec fn digit_char(d: int) -> char {
    if d == 0 {
        '0'
    } else if d == 1 {
        '1'
    } else if d == 2 {
        '2'
    } else if d == 3 {
        '3'
    } else if d == 4 {
        '4'
    } else if d == 5 {
        '5'
    } else if d == 6 {
        '6'
    } else if d == 7 {
        '7'
    } else if d == 8 {
        '8'
    } else {
        '9'
    }
}

/// The decimal digits of a non-negative count, most significant first.
pub open spec fn dec_str(n: int) -> Seq<char>
    decreases n,
{
    if n < 10 {
        seq![digit_char(n)]
    } else {
        dec_str(n / 10).push(digit_char(n % 10))
    }
}

fn digit_string(d: u64) -> (r: String)
    requires
        d < 10,
    ensures
        r@ == seq![digit_char(d as int)],
{
    proof {
        reveal_strlit("0");
        reveal_strlit("1");
        reveal_strlit("2");
        reveal_strlit("3");
        reveal_strlit("4");
        reveal_strlit("5");
        reveal_strlit("6");
        reveal_strlit("7");
        reveal_strlit("8");
        reveal_strlit("9");
    }
    if d == 0 {
        String::from_str("0")
    } else if d == 1 {
        String::from_str("1")
    } else if d == 2 {
        String::from_str("2")
    } else if d == 3 {
        String::from_str("3")
    } else if d == 4 {
        String::from_str("4")
    } else if d == 5 {
        String::from_str("5")
    } else if d == 6 {
        String::from_str("6")
    } else if d == 7 {
        String::from_str("7")
    } else if d == 8 {
        String::from_str("8")
    } else {
        String::from_str("9")
    }
}

/// Writes a non-negative count in decimal.
pub fn dec_string(n: u64) -> (r: String)
    ensures
        r@ == dec_str(n as int),
    decreases n,
{
    if n < 10 {
        digit_string(n)
    } else {
        let mut s = dec_string(n / 10);
        let d = digit_string(n % 10);
        s.append(d.as_str());
        s
    }
}

/// The playback label: "<frame> / <total>".
pub open spec fn spec_frame_label(frame: int, total: int) -> Seq<char> {
    dec_str(frame) + " / "@ + dec_str(total)
}

pub fn frame_label(frame: usize, total: usize) -> (r: String)
    ensures
        r@ == spec_frame_label(frame as int, total as int),
{
    let mut s = dec_string(frame as u64);
    s.append(" / ");
    let t = dec_string(total as u64);
    s.append(t.as_str());
    s
}

/// Total elapsed microseconds as centiseconds, rounded half up.
pub open spec fn spec_cs_of_us(us: u64) -> int {
    (us + 5000) / 10000
}

/// The streaming label while the link is open, for a total elapsed
/// time `us` and the total `prev` at the previous poll: the elapsed
/// seconds to two decimals, then the milliseconds since `prev`:
/// "Live <s>.<cc> (<d>ms)".
pub open spec fn spec_live_label(us: u64, prev: u64) -> Seq<char>
    recommends
        prev <= us,
{
    let cs = spec_cs_of_us(us);
    let d = (us - prev) / 1000;
    "Live "@ + dec_str(cs / 100) + "."@ + seq![
        digit_char((cs / 10) % 10),
        digit_char(cs % 10),
    ] + " ("@ + dec_str(d) + "ms)"@
}

/// The streaming label while the link is closed.
pub open spec fn spec_offline_label() -> Seq<char> {
    "Offline"@
}

pub fn offline_label() -> (r: String)
    ensures
        r@ == spec_offline_label(),
{
    String::from_str("Offline")
}

pub fn live_label(us: u64, prev: u64) -> (r: String)
    requires
        prev <= us,
    ensures
        r@ == spec_live_label(us, prev),
{
    let q = us / 10000;
    let rm = us % 10000;
    let cs = q + if rm >= 5000 {
        1u64
    } else {
        0u64
    };
    proof {
        vstd::arithmetic::div_mod::lemma_fundamental_div_mod(us as int, 10000);
        vstd::arithmetic::div_mod::lemma_fundamental_div_mod_converse(
            us as int + 5000,
            10000,
            cs as int,
            us as int + 5000 - 10000 * cs as int,
        );
        assert(cs == spec_cs_of_us(us));
    }
    let mut s = String::from_str("Live ");
    let whole = dec_string(cs / 100);
    s.append(whole.as_str());
    s.append(".");
    let d1 = digit_string((cs / 10) % 10);
    s.append(d1.as_str());
    let d0 = digit_string(cs % 10);
    s.append(d0.as_str());
    s.append(" (");
    let ms = dec_string((us - prev) / 1000);
    s.append(ms.as_str());
    s.append("ms)");
    s
}

} // verus!
