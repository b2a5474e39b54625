//! Textual rendering of times, temperatures and channel references.
//!
//! Times are carried as whole milliseconds and temperatures as hundredths of
//! a degree Celsius, so that every rule here is exact integer arithmetic.

use vstd::prelude::*;
use vstd::string::StringExecFns;

verus! {

/// The character for one decimal digit value.
pub open spec fn digit_char(d: int) -> char {
    if d == 0 {
        '0'
    } else if d == 1 {
        '1'
    } else if d == 2 {
        '2'
    } else if d == 3 {
        '3'
    } else if d == 4 {
        '4'
    } else if d == 5 {
        '5'
    } else if d == 6 {
        '6'
    } else if d == 7 {
        '7'
    } else if d == 8 {
        '8'
    } else {
        '9'
    }
}

/// The decimal digits of `n`, most significant first, with no padding.
pub open spec fn dec_chars(n: nat) -> Seq<char>
    decreases n,
{
    if n < 10 {
        seq![digit_char(n as int)]
    } else {
        dec_chars(n / 10) + seq![digit_char((n % 10) as int)]
    }
}

/// `n` zero-padded on the left to at least two digits.
pub open spec fn pad2_chars(n: nat) -> Seq<char> {
    if n < 10 {
        seq!['0'] + dec_chars(n)
    } else {
        dec_chars(n)
    }
}

/// `n` zero-padded on the left to at least three digits.
pub open spec fn pad3_chars(n: nat) -> Seq<char> {
    if n < 10 {
        seq!['0', '0'] + dec_chars(n)
    } else if n < 100 {
        seq!['0'] + dec_chars(n)
    } else {
        dec_chars(n)
    }
}

fn digit_str(d: u64) -> (s: &'static str)
    requires
        d < 10,
    ensures
        s@ == seq![digit_char(d as int)],
{
    let s: &'static str = match d {
        0 => "0",
        1 => "1",
        2 => "2",
        3 => "3",
        4 => "4",
        5 => "5",
        6 => "6",
        7 => "7",
        8 => "8",
        _ => "9",
    };
    proof {
        reveal_strlit("0");
        reveal_strlit("1");
        reveal_strlit("2");
        reveal_strlit("3");
        reveal_strlit("4");
        reveal_strlit("5");
        reveal_strlit("6");
        reveal_strlit("7");
        reveal_strlit("8");
        reveal_strlit("9");
        assert(s@ =~= seq![digit_char(d as int)]);
    }
    s
}

/// `n` written in decimal, without padding.
pub fn u64_dec(n: u64) -> (s: String)
    ensures
        s@ == dec_chars(n as nat),
    decreases n,
{
    if n < 10 {
        digit_str(n).to_owned()
    } else {
        let mut s = u64_dec(n / 10);
        s.append(digit_str(n % 10));
        s
    }
}

/// `n` written in decimal, zero-padded to at least two digits.
pub fn u64_pad2(n: u64) -> (s: String)
    ensures
        s@ == pad2_chars(n as nat),
{
    if n < 10 {
        let mut s = String::from_str("0");
        proof {
            reveal_strlit("0");
            assert(s@ =~= seq!['0']);
        }
        s.append(digit_str(n));
        s
    } else {
        u64_dec(n)
    }
}

/// `n` written in decimal, zero-padded to at least three digits.
pub fn u64_pad3(n: u64) -> (s: String)
    ensures
        s@ == pad3_chars(n as nat),
{
    if n < 10 {
        let mut s = String::from_str("00");
        proof {
            reveal_strlit("00");
            assert(s@ =~= seq!['0', '0']);
        }
        s.append(digit_str(n));
        s
    } else if n < 100 {
        let mut s = String::from_str("0");
        proof {
            reveal_strlit("0");
            assert(s@ =~= seq!['0']);
        }
        let rest = u64_dec(n);
        s.append(rest.as_str());
        s
    } else {
        u64_dec(n)
    }
}

/// A possibly negative count written in decimal.
pub open spec fn int_dec_chars(n: int) -> Seq<char> {
    if n < 0 {
        "-"@ + dec_chars((-n) as nat)
    } else {
        dec_chars(n as nat)
    }
}

/// `n` written in decimal, with a leading minus sign when negative.
pub fn i64_dec(n: i64) -> (s: String)
    ensures
        s@ == int_dec_chars(n as int),
{
    if n < 0 {
        let mag: u64 = (-(n as i128)) as u64;
        let mut s = String::from_str("-");
        let digits = u64_dec(mag);
        s.append(digits.as_str());
        s
    } else {
        u64_dec(n as u64)
    }
}

/// Elapsed/end times as `minutes:seconds`, seconds zero-padded to two digits;
/// a non-positive time has no meaningful reading and shows as `--:--`.
pub open spec fn minutes_time_chars(ms: int) -> Seq<char> {
    if ms <= 0 {
        "--:--"@
    } else {
        let total = ms / 1000;
        dec_chars((total / 60) as nat) + ":"@ + pad2_chars((total % 60) as nat)
    }
}

/// Formats a time given in milliseconds as `minutes:seconds`.
pub fn format_minutes_time(ms: i64) -> (s: String)
    ensures
        s@ == minutes_time_chars(ms as int),
{
    if ms <= 0 {
        return "--:--".to_owned();
    }
    let total: u64 = (ms as u64) / 1000;
    let mut s = u64_dec(total / 60);
    s.append(":");
    let secs = u64_pad2(total % 60);
    s.append(secs.as_str());
    proof {
        assert(s@ =~= minutes_time_chars(ms as int));
    }
    s
}

/// Lap times as `minutes:seconds.milliseconds`, seconds padded to two digits
/// and milliseconds to three, all derived by truncation; a non-positive time
/// shows as `--:--.---`.
pub open spec fn laptime_chars(ms: int) -> Seq<char> {
    if ms <= 0 {
        "--:--.---"@
    } else {
        dec_chars((ms / 60000) as nat) + ":"@ + pad2_chars(((ms % 60000) / 1000) as nat) + "."@
            + pad3_chars((ms % 1000) as nat)
    }
}

/// Formats a lap time given in milliseconds as `minutes:seconds.milliseconds`.
pub fn format_laptime(ms: i64) -> (s: String)
    ensures
        s@ == laptime_chars(ms as int),
{
    if ms <= 0 {
        return "--:--.---".to_owned();
    }
    let msu: u64 = ms as u64;
    let mut s = u64_dec(msu / 60000);
    s.append(":");
    let secs = u64_pad2((msu % 60000) / 1000);
    s.append(secs.as_str());
    s.append(".");
    let millis = u64_pad3(msu % 1000);
    s.append(millis.as_str());
    proof {
        assert(s@ =~= laptime_chars(ms as int));
    }
    s
}

/// Nearest whole number of `m / 1000`, ties going to the even neighbour,
/// matching how a fractional degree reading is shown with no decimals.
pub open spec fn round_milli_half_even(m: nat) -> nat {
    let q = m / 1000;
    let r = m % 1000;
    if r > 500 {
        q + 1
    } else if r < 500 {
        q
    } else if q % 2 == 1 {
        q + 1
    } else {
        q
    }
}

/// A Celsius reading in hundredths, shown with exactly two decimals.
pub open spec fn celsius_chars(c: int) -> Seq<char> {
    let mag = if c < 0 {
        -c
    } else {
        c
    };
    (if c < 0 {
        "-"@
    } else {
        Seq::<char>::empty()
    }) + dec_chars((mag / 100) as nat) + "."@ + pad2_chars((mag % 100) as nat)
}

/// The same reading converted to Fahrenheit (`celsius * 1.8 + 32`), shown
/// rounded to a whole number of degrees.
pub open spec fn fahrenheit_chars(c: int) -> Seq<char> {
    let fm = c * 18 + 32000;
    let mag = if fm < 0 {
        -fm
    } else {
        fm
    };
    (if fm < 0 {
        "-"@
    } else {
        Seq::<char>::empty()
    }) + dec_chars(round_milli_half_even(mag as nat))
}

/// A temperature as `celsius°C / fahrenheit°F`.
pub open spec fn temp_chars(c: int) -> Seq<char> {
    celsius_chars(c) + "°C / "@ + fahrenheit_chars(c) + "°F"@
}

/// Formats a temperature given in hundredths of a degree Celsius.
pub fn format_temp(c: i64) -> (s: String)
    ensures
        s@ == temp_chars(c as int),
{
    let cmag: u64 = if c < 0 {
        (-(c as i128)) as u64
    } else {
        c as u64
    };
    let mut s = if c < 0 {
        String::from_str("-")
    } else {
        String::new()
    };
    let whole = u64_dec(cmag / 100);
    s.append(whole.as_str());
    s.append(".");
    let frac = u64_pad2(cmag % 100);
    s.append(frac.as_str());
    s.append("°C / ");
    let fm: i128 = (c as i128) * 18 + 32000;
    let fmag: u128 = if fm < 0 {
        (-fm) as u128
    } else {
        fm as u128
    };
    let q: u128 = fmag / 1000;
    let r: u128 = fmag % 1000;
    let rounded: u128 = if r > 500 {
        q + 1
    } else if r < 500 {
        q
    } else if q % 2 == 1 {
        q + 1
    } else {
        q
    };
    if fm < 0 {
        s.append("-");
    }
    let deg = u64_dec(rounded as u64);
    s.append(deg.as_str());
    s.append("°F");
    proof {
        assert(s@ =~= temp_chars(c as int));
    }
    s
}

/// A reference to the externally hosted surface a board writes to, reduced to
/// the two numeric identities the log line shows.
pub struct ChannelRef {
    pub guild_id: u64,
    pub channel_id: u64,
}

/// How a channel is named in log output: `"guild" (id: channel)`.
pub open spec fn channel_chars(guild_id: int, channel_id: int) -> Seq<char> {
    "\""@ + dec_chars(guild_id as nat) + "\" (id: "@ + dec_chars(channel_id as nat) + ")"@
}

/// Formats a channel reference for log output.
pub fn format_channel(chan: &ChannelRef) -> (s: String)
    ensures
        s@ == channel_chars(chan.guild_id as int, chan.channel_id as int),
{
    let mut s = String::from_str("\"");
    let guild = u64_dec(chan.guild_id);
    s.append(guild.as_str());
    s.append("\" (id: ");
    let id = u64_dec(chan.channel_id);
    s.append(id.as_str());
    s.append(")");
    proof {
        assert(s@ =~= channel_chars(chan.guild_id as int, chan.channel_id as int));
    }
    s
}

} // verus!
