//! Game and engine timestamps.
use vstd::prelude::*;
use vstd::string::StringExecFns;

verus! {

pub const SECONDS_PER_DAY: u32 = 86400;
pub const SECONDS_PER_HOUR: u32 = 3600;
pub const SECONDS_PER_MINUTE: u32 = 60;

/// `x`, or `u32::MAX` where `x` does not fit in a `u32`.
pub open spec fn sat(x: int) -> u32 {
    if x > u32::MAX {
        u32::MAX
    } else {
        x as u32
    }
}

fn saturating_mul(a: u32, b: u32) -> (r: u32)
    ensures
        r == sat(a * b),
{
    match a.checked_mul(b) {
        Some(v) => v,
        None => u32::MAX,
    }
}

/// A point in game time, in whole seconds.
#[derive(Debug, Clone, Copy, PartialEq, Eq, Structural, PartialOrd, Ord, Hash)]
pub struct GameTime {
    pub seconds: u32,
}

pub open spec fn days_added(t: u32, days: u32) -> u32 {
    sat(t + sat(sat(sat(days * 24) * 60) * 60))
}

pub open spec fn hours_added(t: u32, hours: u32) -> u32 {
    sat(t + sat(sat(hours * 60) * 60))
}

pub open spec fn minutes_added(t: u32, minutes: u32) -> u32 {
    sat(t + sat(minutes * 60))
}

pub open spec fn seconds_added(t: u32, seconds: u32) -> u32 {
    sat(t + seconds)
}

impl GameTime {
    /// The time `days` days, `hours` hours, `minutes` minutes and `seconds`
    /// seconds after zero; every step saturates.
    pub fn new(days: u32, hours: u32, minutes: u32, seconds: u32) -> (r: GameTime)
        ensures
            r.seconds == seconds_added(
                minutes_added(hours_added(days_added(0, days), hours), minutes),
                seconds,
            ),
    {
        let mut this = GameTime { seconds: 0 };
        this.add_days(days);
        this.add_hours(hours);
        this.add_minutes(minutes);
        this.add_seconds(seconds);
        this
    }

    /// Adds `days` days, saturating.
    pub fn add_days(&mut self, days: u32)
        ensures
            final(self).seconds == days_added(old(self).seconds, days),
    {
        let d = saturating_mul(saturating_mul(saturating_mul(days, 24), 60), 60);
        self.seconds = self.seconds.saturating_add(d);
    }

    /// Adds `hours` hours, saturating.
    pub fn add_hours(&mut self, hours: u32)
        ensures
            final(self).seconds == hours_added(old(self).seconds, hours),
    {
        let h = saturating_mul(saturating_mul(hours, 60), 60);
        self.seconds = self.seconds.saturating_add(h);
    }

    /// Adds `minutes` minutes, saturating.
    pub fn add_minutes(&mut self, minutes: u32)
        ensures
            final(self).seconds == minutes_added(old(self).seconds, minutes),
    {
        let m = saturating_mul(minutes, 60);
        self.seconds = self.seconds.saturating_add(m);
    }

    /// Adds `seconds` seconds, saturating.
    pub fn add_seconds(&mut self, seconds: u32)
        ensures
            final(self).seconds == seconds_added(old(self).seconds, seconds),
    {
        self.seconds = self.seconds.saturating_add(seconds);
    }

    /// Whole days since zero.
    pub fn day(&self) -> (r: u32)
        ensures
            r == self.seconds / 86400,
    {
        self.seconds / SECONDS_PER_DAY
    }

    /// The hour within the day.
    pub fn hour(&self) -> (r: u32)
        ensures
            r == (self.seconds % 86400) / 3600,
    {
        (self.seconds % SECONDS_PER_DAY) / SECONDS_PER_HOUR
    }

    /// The minute within the hour.
    pub fn minute(&self) -> (r: u32)
        ensures
            r == (self.seconds % 3600) / 60,
    {
        (self.seconds % SECONDS_PER_HOUR) / SECONDS_PER_MINUTE
    }

    /// The second within the minute.
    pub fn second(&self) -> (r: u32)
        ensures
            r == self.seconds % 60,
    {
        self.seconds % SECONDS_PER_MINUTE
    }

    /// The same day, minute and second at hour `hour`; absent unless
    /// `hour` is at most 23 and the result fits.
    pub fn with_hour(&self, hour: u32) -> (r: Option<GameTime>)
        ensures
            r is Some <==> hour <= 23 && self.seconds / 86400 * 86400 + hour * 3600 + self.seconds
                % 3600 <= u32::MAX,
            r matches Some(t) ==> t.seconds == self.seconds / 86400 * 86400 + hour * 3600
                + self.seconds % 3600,
    {
        if hour > 23 {
            return None;
        }
        let base = self.day() as u64 * 86400;
        let v = base + hour as u64 * 3600 + (self.seconds % SECONDS_PER_HOUR) as u64;
        if v > u32::MAX as u64 {
            None
        } else {
            Some(GameTime { seconds: v as u32 })
        }
    }

    /// The same day, hour and second at minute `minute`; absent unless
    /// `minute` is at most 59 and the result fits.
    pub fn with_minute(&self, minute: u32) -> (r: Option<GameTime>)
        ensures
            r is Some <==> minute <= 59 && self.seconds / 3600 * 3600 + minute * 60 + self.seconds
                % 60 <= u32::MAX,
            r matches Some(t) ==> t.seconds == self.seconds / 3600 * 3600 + minute * 60
                + self.seconds % 60,
    {
        if minute > 59 {
            return None;
        }
        let base = (self.seconds / SECONDS_PER_HOUR) as u64 * 3600;
        let v = base + minute as u64 * 60 + (self.seconds % SECONDS_PER_MINUTE) as u64;
        if v > u32::MAX as u64 {
            None
        } else {
            Some(GameTime { seconds: v as u32 })
        }
    }

    /// The same day, hour and minute at second `second`; absent unless
    /// `second` is at most 59 and the result fits.
    pub fn with_second(&self, second: u32) -> (r: Option<GameTime>)
        ensures
            r is Some <==> second <= 59 && self.seconds / 60 * 60 + second <= u32::MAX,
            r matches Some(t) ==> t.seconds == self.seconds / 60 * 60 + second,
    {
        if second > 59 {
            return None;
        }
        let v = (self.seconds / SECONDS_PER_MINUTE) as u64 * 60 + second as u64;
        if v > u32::MAX as u64 {
            None
        } else {
            Some(GameTime { seconds: v as u32 })
        }
    }

    /// The time as `dayThour:minute:second`, each number in decimal.
    pub fn to_string(&self) -> (r: String)
        ensures
            r@ == decimal((self.seconds / 86400) as nat) + seq!['T'] + decimal(
                ((self.seconds % 86400) / 3600) as nat,
            ) + seq![':'] + decimal(((self.seconds % 3600) / 60) as nat) + seq![':'] + decimal(
                (self.seconds % 60) as nat,
            ),
    {
        let mut out = String::new();
        append_decimal(&mut out, self.day());
        let sep = "T";
        proof {
            reveal_strlit("T");
        }
        out.append(sep);
        append_decimal(&mut out, self.hour());
        let colon = ":";
        proof {
            reveal_strlit(":");
        }
        out.append(colon);
        append_decimal(&mut out, self.minute());
        out.append(colon);
        append_decimal(&mut out, self.second());
        out
    }
}

/// The decimal digit for `d`, which is below ten.
pub open spec fn digit_char(d: nat) -> char {
    if d == 0 {
        '0'
    } else if d == 1 {
        '1'
    } else if d == 2 {
        '2'
    } else if d == 3 {
        '3'
    } else if d == 4 {
        '4'
    } else if d == 5 {
        '5'
    } else if d == 6 {
        '6'
    } else if d == 7 {
        '7'
    } else if d == 8 {
        '8'
    } else {
        '9'
    }
}

/// `n` written in decimal, without leading zeros.
pub open spec fn decimal(n: nat) -> Seq<char>
    decreases n,
{
    if n < 10 {
        seq![digit_char(n)]
    } else {
        decimal(n / 10).push(digit_char(n % 10))
    }
}

fn digit_str(d: u32) -> (r: &'static str)
    requires
        d < 10,
    ensures
        r@ == seq![digit_char(d as nat)],
{
    proof {
        reveal_strlit("0");
        reveal_strlit("1");
        reveal_strlit("2");
        reveal_strlit("3");
        reveal_strlit("4");
        reveal_strlit("5");
        reveal_strlit("6");
        reveal_strlit("7");
        reveal_strlit("8");
        reveal_strlit("9");
    }
    let r = if d == 0 {
        "0"
    } else if d == 1 {
        "1"
    } else if d == 2 {
        "2"
    } else if d == 3 {
        "3"
    } else if d == 4 {
        "4"
    } else if d == 5 {
        "5"
    } else if d == 6 {
        "6"
    } else if d == 7 {
        "7"
    } else if d == 8 {
        "8"
    } else {
        "9"
    };
    assert(r@ =~= seq![digit_char(d as nat)]);
    r
}

/// Appends `n` in decimal to `out`.
fn append_decimal(out: &mut String, n: u32)
    ensures
        final(out)@ == old(out)@ + decimal(n as nat),
    decreases n,
{
    if n >= 10 {
        append_decimal(out, n / 10);
    }
    out.append(digit_str(n % 10));
    proof {
        if n >= 10 {
            assert(decimal(n as nat) == decimal((n / 10) as nat).push(digit_char((n % 10) as nat)));
        } else {
            assert(decimal(n as nat) == seq![digit_char(n as nat)]);
        }
    }
    assert(final(out)@ =~= old(out)@ + decimal(n as nat));
}

impl From<u32> for GameTime {
    fn from(seconds: u32) -> (r: GameTime) {
        GameTime { seconds }
    }
}

impl vstd::std_specs::convert::FromSpecImpl<u32> for GameTime {
    open spec fn obeys_from_spec() -> bool {
        true
    }

    open spec fn from_spec(seconds: u32) -> GameTime {
        GameTime { seconds }
    }
}

impl From<GameTime> for u32 {
    fn from(t: GameTime) -> (r: u32) {
        t.seconds
    }
}

impl vstd::std_specs::convert::FromSpecImpl<GameTime> for u32 {
    open spec fn obeys_from_spec() -> bool {
        true
    }

    open spec fn from_spec(t: GameTime) -> u32 {
        t.seconds
    }
}

impl Default for GameTime {
    fn default() -> (r: GameTime)
        ensures
            r.seconds == 0,
    {
        GameTime { seconds: 0 }
    }
}

/// A point in engine time: the bits of a float, held as they are.
#[derive(Debug, Clone, Copy, PartialEq, Eq, Structural, Default)]
pub struct EngineTime {
    pub bits: u64,
}

impl EngineTime {
    /// The engine time with these bits.
    pub fn from_bits(bits: u64) -> (r: EngineTime)
        ensures
            r.bits == bits,
    {
        EngineTime { bits }
    }

    /// The bits of the engine time.
    pub fn to_bits(&self) -> (r: u64)
        ensures
            r == self.bits,
    {
        self.bits
    }

    /// Whether some bit of the time is set.
    pub fn is_valid(&self) -> (r: bool)
        ensures
            r == (self.bits != 0),
    {
        self.bits != 0
    }
}

/// Why a value is not an engine time.
#[derive(Debug, Clone, Copy, PartialEq, Eq, Structural)]
pub enum EngineTimeError {
    /// The value is infinite.
    OutOfBounds,
}

impl EngineTimeError {
    /// A sentence that describes the error.
    pub fn message(&self) -> (r: &'static str) {
        match self {
            EngineTimeError::OutOfBounds => "unsupported infinite or negative infinite floating-point",
        }
    }
}

} // verus!
