use vstd::prelude::*;
use vstd::string::StringExecFns;

use crate::draw::{Align, Color};

verus! {

pub const SECS_PER_MINUTE: i64 = 60;

pub const SECS_PER_HOUR: i64 = 3600;

pub const SECS_PER_DAY: i64 = 86400;

/// The decimal digits of `n`, most significant first.
pub open spec fn decimal(n: nat) -> Seq<char>
    decreases n,
{
    if n < 10 {
        seq![(n + '0' as nat) as char]
    } else {
        decimal(n / 10).push(((n % 10) + '0' as nat) as char)
    }
}

/// Relies on `<u64 as ToString>::to_string`: the decimal digits of the
/// number, without sign or leading zeros.
#[verifier::external_body]
fn decimal_string(n: u64) -> (r: String)
    ensures
        r@ == decimal(n as nat),
{
    n.to_string()
}

/// `"<count> <unit>"`, or `"1 <one>"` for a count of one.
pub open spec fn count_label(count: int, one: Seq<char>, many: Seq<char>) -> Seq<char> {
    if count == 1 {
        "1 "@ + one + " Ago"@
    } else {
        decimal(count as nat) + " "@ + many + " Ago"@
    }
}

/// How long ago, in words, something happened `secs` seconds back: a
/// negative time is "The Future?", more than two weeks "UPDATE NOW!", and
/// otherwise the largest whole unit of days, hours or minutes that is at
/// least one, or "Now".
pub open spec fn spec_label(secs: int) -> Seq<char> {
    if secs < 0 {
        "The Future?"@
    } else if secs / 86400 > 14 {
        "UPDATE NOW!"@
    } else if secs / 86400 >= 1 {
        count_label(secs / 86400, "Day"@, "Days"@)
    } else if secs / 3600 >= 1 {
        count_label(secs / 3600, "Hour"@, "Hours"@)
    } else if secs / 60 >= 1 {
        count_label(secs / 60, "Minute"@, "Minutes"@)
    } else {
        "Now"@
    }
}

fn count_words(count: i64, one: &str, many: &str) -> (r: String)
    requires
        count >= 1,
    ensures
        r@ == count_label(count as int, one@, many@),
{
    if count == 1 {
        let r = String::from_str("1 ").concat(one).concat(" Ago");
        proof {
            reveal_strlit("1 ");
            reveal_strlit(" Ago");
        }
        r
    } else {
        let r = decimal_string(count as u64).concat(" ").concat(many).concat(" Ago");
        proof {
            reveal_strlit(" ");
            reveal_strlit(" Ago");
        }
        r
    }
}

/// The label for a time `delta_seconds` seconds in the past.
pub fn label_from_time(delta_seconds: i64) -> (r: String)
    ensures
        r@ == spec_label(delta_seconds as int),
{
    if delta_seconds < 0 {
        proof {
            reveal_strlit("The Future?");
        }
        return String::from_str("The Future?");
    }
    let days = delta_seconds / SECS_PER_DAY;
    if days > 14 {
        proof {
            reveal_strlit("UPDATE NOW!");
        }
        return String::from_str("UPDATE NOW!");
    }
    if days >= 1 {
        return count_words(days, "Day", "Days");
    }
    let hours = delta_seconds / SECS_PER_HOUR;
    if hours >= 1 {
        return count_words(hours, "Hour", "Hours");
    }
    let minutes = delta_seconds / SECS_PER_MINUTE;
    if minutes >= 1 {
        return count_words(minutes, "Minute", "Minutes");
    }
    proof {
        reveal_strlit("Now");
    }
    String::from_str("Now")
}

/// Settings for a widget that shows how long ago a moment was.
#[derive(Clone, Copy, Debug)]
pub struct UpdatedLastBuilder {
    pub time_stamp: i64,
    pub desired_height: Option<u32>,
    pub h_align: Align,
    pub v_align: Align,
    pub fg: Color,
    pub bg: Color,
}

impl Default for UpdatedLastBuilder {
    fn default() -> (r: UpdatedLastBuilder)
        ensures
            r == UpdatedLastBuilder::spec_default(),
    {
        UpdatedLastBuilder {
            time_stamp: 0,
            desired_height: None,
            h_align: Align::Center,
            v_align: Align::Center,
            fg: Color { a: 0, r: 0, g: 0, b: 0 },
            bg: Color { a: 0, r: 0, g: 0, b: 0 },
        }
    }
}

impl UpdatedLastBuilder {
    /// Time stamp zero, no height, centered on both axes, all colours zero.
    pub open spec fn spec_default() -> UpdatedLastBuilder {
        UpdatedLastBuilder {
            time_stamp: 0,
            desired_height: None,
            h_align: Align::Center,
            v_align: Align::Center,
            fg: Color { a: 0, r: 0, g: 0, b: 0 },
            bg: Color { a: 0, r: 0, g: 0, b: 0 },
        }
    }

    pub fn new() -> (r: UpdatedLastBuilder)
        ensures
            r == UpdatedLastBuilder::spec_default(),
    {
        UpdatedLastBuilder::default()
    }

    pub fn time_stamp(self, time_stamp: i64) -> (r: UpdatedLastBuilder)
        ensures
            r == (UpdatedLastBuilder { time_stamp, ..self }),
    {
        UpdatedLastBuilder { time_stamp, ..self }
    }

    pub fn desired_height(self, desired_height: u32) -> (r: UpdatedLastBuilder)
        ensures
            r == (UpdatedLastBuilder { desired_height: Some(desired_height), ..self }),
    {
        UpdatedLastBuilder { desired_height: Some(desired_height), ..self }
    }

    pub fn h_align(self, h_align: Align) -> (r: UpdatedLastBuilder)
        ensures
            r == (UpdatedLastBuilder { h_align, ..self }),
    {
        UpdatedLastBuilder { h_align, ..self }
    }

    pub fn v_align(self, v_align: Align) -> (r: UpdatedLastBuilder)
        ensures
            r == (UpdatedLastBuilder { v_align, ..self }),
    {
        UpdatedLastBuilder { v_align, ..self }
    }

    pub fn fg(self, fg: Color) -> (r: UpdatedLastBuilder)
        ensures
            r == (UpdatedLastBuilder { fg, ..self }),
    {
        UpdatedLastBuilder { fg, ..self }
    }

    pub fn bg(self, bg: Color) -> (r: UpdatedLastBuilder)
        ensures
            r == (UpdatedLastBuilder { bg, ..self }),
    {
        UpdatedLastBuilder { bg, ..self }
    }
}

} // verus!
