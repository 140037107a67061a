//! Weather icon categories and the textual ids of observations and forecasts.

use vstd::prelude::*;
use vstd::string::{StrSliceExecFns, StringExecFns};

verus! {

/// Closed set of weather icon categories.
#[derive(Clone, Copy, Debug, PartialEq, Eq, Structural)]
pub enum Icon {
    Rain,
    Thunderstorm,
    Fog,
    Snow,
    PartlyCloudy,
    Cloudy,
    Hail,
    Sleet,
    Clear,
    Wind,
    Unknown,
}

/// The icon that a provider's icon name stands for.
pub open spec fn icon_named(name: Seq<char>) -> Icon {
    if name == "rain"@ {
        Icon::Rain
    } else if name == "cloudy"@ {
        Icon::Cloudy
    } else if name == "clear-day"@ || name == "clear-night"@ {
        Icon::Clear
    } else if name == "fog"@ {
        Icon::Fog
    } else if name == "hail"@ {
        Icon::Hail
    } else if name == "thunderstorm"@ {
        Icon::Thunderstorm
    } else if name == "snow"@ {
        Icon::Snow
    } else if name == "sleet"@ {
        Icon::Sleet
    } else if name == "wind"@ {
        Icon::Wind
    } else if name == "partly-cloudy-day"@ || name == "partly-cloudy-night"@ {
        Icon::PartlyCloudy
    } else {
        Icon::Unknown
    }
}

/// The name under which an icon is stored.
pub open spec fn icon_name(icon: Icon) -> Seq<char> {
    match icon {
        Icon::Rain => "rain"@,
        Icon::Thunderstorm => "thunderstorm"@,
        Icon::Fog => "fog"@,
        Icon::Snow => "snow"@,
        Icon::PartlyCloudy => "partly-cloudy-day"@,
        Icon::Cloudy => "cloudy"@,
        Icon::Hail => "hail"@,
        Icon::Sleet => "sleet"@,
        Icon::Clear => "clear-day"@,
        Icon::Wind => "wind"@,
        Icon::Unknown => "unknown"@,
    }
}

/// Whether two strings hold the same characters.
pub fn text_equals(a: &str, b: &str) -> (r: bool)
    ensures
        r == (a@ == b@),
{
    let n = a.unicode_len();
    if n != b.unicode_len() {
        return false;
    }
    let mut i: usize = 0;
    while i < n
        invariant
            n == a@.len(),
            n == b@.len(),
            i <= n,
            a@.subrange(0, i as int) == b@.subrange(0, i as int),
        decreases n - i,
    {
        if a.get_char(i) != b.get_char(i) {
            assert(a@[i as int] != b@[i as int]);
            return false;
        }
        assert(a@.subrange(0, i + 1) =~= a@.subrange(0, i as int).push(a@[i as int]));
        assert(b@.subrange(0, i + 1) =~= b@.subrange(0, i as int).push(b@[i as int]));
        i = i + 1;
    }
    assert(a@ =~= a@.subrange(0, n as int));
    assert(b@ =~= b@.subrange(0, n as int));
    true
}

impl Icon {
    /// Converts a provider's icon name into an icon; any name that is not
    /// recognised gives `Icon::Unknown`.
    pub fn from_str(name: &str) -> (r: Icon)
        ensures
            r == icon_named(name@),
    {
        if text_equals(name, "rain") {
            Icon::Rain
        } else if text_equals(name, "cloudy") {
            Icon::Cloudy
        } else if text_equals(name, "clear-day") || text_equals(name, "clear-night") {
            Icon::Clear
        } else if text_equals(name, "fog") {
            Icon::Fog
        } else if text_equals(name, "hail") {
            Icon::Hail
        } else if text_equals(name, "thunderstorm") {
            Icon::Thunderstorm
        } else if text_equals(name, "snow") {
            Icon::Snow
        } else if text_equals(name, "sleet") {
            Icon::Sleet
        } else if text_equals(name, "wind") {
            Icon::Wind
        } else if text_equals(name, "partly-cloudy-day") || text_equals(name, "partly-cloudy-night") {
            Icon::PartlyCloudy
        } else {
            Icon::Unknown
        }
    }

    /// The name under which the icon is stored.
    pub fn to_str(&self) -> (r: &'static str)
        ensures
            r@ == icon_name(*self),
    {
        match self {
            Icon::Rain => "rain",
            Icon::Thunderstorm => "thunderstorm",
            Icon::Fog => "fog",
            Icon::Snow => "snow",
            Icon::PartlyCloudy => "partly-cloudy-day",
            Icon::Cloudy => "cloudy",
            Icon::Hail => "hail",
            Icon::Sleet => "sleet",
            Icon::Clear => "clear-day",
            Icon::Wind => "wind",
            Icon::Unknown => "unknown",
        }
    }
}

/// Reading a stored icon name back gives the icon that was stored.
pub proof fn lemma_icon_name_round_trip(icon: Icon)
    requires
        icon != Icon::Unknown,
    ensures
        icon_named(icon_name(icon)) == icon,
{
    reveal_strlit("rain");
    reveal_strlit("cloudy");
    reveal_strlit("clear-day");
    reveal_strlit("clear-night");
    reveal_strlit("fog");
    reveal_strlit("hail");
    reveal_strlit("thunderstorm");
    reveal_strlit("snow");
    reveal_strlit("sleet");
    reveal_strlit("wind");
    reveal_strlit("partly-cloudy-day");
    reveal_strlit("partly-cloudy-night");
    let n = icon_name(icon);
    assert(n.len() != "rain"@.len() || n[0] != "rain"@[0] || n =~= "rain"@);
    assert(n.len() != "cloudy"@.len() || n[0] != "cloudy"@[0] || n =~= "cloudy"@);
    assert(n.len() != "clear-day"@.len() || n[0] != "clear-day"@[0] || n =~= "clear-day"@);
    assert(n.len() != "clear-night"@.len());
    assert(n.len() != "fog"@.len() || n =~= "fog"@);
    assert(n.len() != "hail"@.len() || n[0] != "hail"@[0] || n =~= "hail"@);
    assert(n.len() != "thunderstorm"@.len() || n =~= "thunderstorm"@);
    assert(n.len() != "snow"@.len() || n[0] != "snow"@[0] || n =~= "snow"@);
    assert(n.len() != "sleet"@.len() || n[1] != "sleet"@[1] || n =~= "sleet"@);
    assert(n.len() != "wind"@.len() || n[0] != "wind"@[0] || n =~= "wind"@);
    assert(n.len() != "partly-cloudy-night"@.len());
}

/// The decimal digit for `d` below ten.
pub open spec fn digit_char(d: nat) -> char {
    if d == 0 { '0' } else if d == 1 { '1' } else if d == 2 { '2' } else if d == 3 { '3' }
    else if d == 4 { '4' } else if d == 5 { '5' } else if d == 6 { '6' } else if d == 7 { '7' }
    else if d == 8 { '8' } else { '9' }
}

/// `n` written in decimal, without leading zeros.
pub open spec fn decimal(n: nat) -> Seq<char>
    decreases n,
{
    if n < 10 {
        seq![digit_char(n)]
    } else {
        decimal(n / 10).push(digit_char(n % 10))
    }
}

/// `n` in decimal, left padded with zeros to at least `width` characters.
pub open spec fn zero_padded(n: nat, width: nat) -> Seq<char> {
    let d = decimal(n);
    if d.len() < width {
        Seq::new((width - d.len()) as nat, |i: int| '0') + d
    } else {
        d
    }
}

/// The id of the hour `(year, day, hour)`: `{year}-{day:03}-{hour:02}`.
pub open spec fn point_id(year: nat, day: nat, hour: nat) -> Seq<char> {
    decimal(year) + seq!['-'] + zero_padded(day, 3) + seq!['-'] + zero_padded(hour, 2)
}

/// The one-character text of decimal digit `d`.
fn digit_text(d: u64) -> (r: &'static str)
    requires
        d < 10,
    ensures
        r@ == seq![digit_char(d as nat)],
{
    let r = match d {
        0 => "0",
        1 => "1",
        2 => "2",
        3 => "3",
        4 => "4",
        5 => "5",
        6 => "6",
        7 => "7",
        8 => "8",
        _ => "9",
    };
    proof {
        reveal_strlit("0");
        reveal_strlit("1");
        reveal_strlit("2");
        reveal_strlit("3");
        reveal_strlit("4");
        reveal_strlit("5");
        reveal_strlit("6");
        reveal_strlit("7");
        reveal_strlit("8");
        reveal_strlit("9");
        assert(r@ =~= seq![digit_char(d as nat)]);
    }
    r
}

/// `n` written in decimal, without leading zeros.
pub fn decimal_text(n: u64) -> (r: String)
    ensures
        r@ == decimal(n as nat),
    decreases n,
{
    if n < 10 {
        String::from_str(digit_text(n))
    } else {
        let head = decimal_text(n / 10);
        head.concat(digit_text(n % 10))
    }
}

/// `n` in decimal, left padded with zeros to at least `width` characters.
pub fn zero_padded_text(n: u64, width: usize) -> (r: String)
    ensures
        r@ == zero_padded(n as nat, width as nat),
{
    let digits = decimal_text(n);
    let len = digits.as_str().unicode_len();
    if len >= width {
        return digits;
    }
    let mut zeros = String::from_str("");
    let mut k: usize = 0;
    proof {
        reveal_strlit("");
        reveal_strlit("0");
        assert(zeros@ =~= Seq::new(0, |i: int| '0'));
    }
    while k < width - len
        invariant
            len < width,
            k <= width - len,
            zeros@ =~= Seq::new(k as nat, |i: int| '0'),
        decreases width - len - k,
    {
        proof {
            reveal_strlit("0");
        }
        zeros.append("0");
        k = k + 1;
    }
    let r = zeros.concat(digits.as_str());
    assert(r@ =~= zero_padded(n as nat, width as nat));
    r
}

/// The id of an observation made at hour `(year, day, hour)`.
pub fn observation_id(year: u16, day: u16, hour: u8) -> (r: String)
    ensures
        r@ == point_id(year as nat, day as nat, hour as nat),
{
    let r = decimal_text(year as u64).concat("-").concat(zero_padded_text(day as u64, 3).as_str()).concat(
        "-",
    ).concat(zero_padded_text(hour as u64, 2).as_str());
    proof {
        reveal_strlit("-");
        assert(r@ =~= point_id(year as nat, day as nat, hour as nat));
    }
    r
}

} // verus!
