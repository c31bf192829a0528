//! The time of day as text, for the status line.

use vstd::prelude::*;

use crate::text::digit_char;

verus! {

/// A number below one hundred in two digits.
pub open spec fn two_digits(number: nat) -> Seq<char> {
    seq![digit_char(number / 10), digit_char(number % 10)]
}

/// A time of day as `HH:MM:SS`.
pub open spec fn clock_text(hour: nat, minute: nat, second: nat) -> Seq<char> {
    two_digits(hour) + ":"@ + two_digits(minute) + ":"@ + two_digits(second)
}

/// `chrono::NaiveTime::format` with `%H:%M:%S`: the three numbers, each padded
/// with zeros to two digits. `chrono::NaiveTime::from_hms_opt` has a time for
/// every hour, minute and second in range.
#[verifier::external_body]
pub(crate) fn format_time(hour: u32, minute: u32, second: u32) -> (text: String)
    requires
        hour < 24,
        minute < 60,
        second < 60,
    ensures
        text@ == clock_text(hour as nat, minute as nat, second as nat),
{
    chrono::NaiveTime::from_hms_opt(hour, minute, second).unwrap().format("%H:%M:%S").to_string()
}

/// A time of day has two digits for each of hour, minute and second, which read as
/// them, and colons between.
pub proof fn law_clock_text_reads_back(hour: nat, minute: nat, second: nat)
    requires
        hour < 24,
        minute < 60,
        second < 60,
    ensures
        ({
            let text = clock_text(hour, minute, second);
            &&& text.len() == 8
            &&& 10 * (text[0] as int - '0' as int) + (text[1] as int - '0' as int) == hour
            &&& text[2] == ':'
            &&& 10 * (text[3] as int - '0' as int) + (text[4] as int - '0' as int) == minute
            &&& text[5] == ':'
            &&& 10 * (text[6] as int - '0' as int) + (text[7] as int - '0' as int) == second
            &&& '0' <= text[0] <= '2' && '0' <= text[1] <= '9'
            &&& '0' <= text[3] <= '5' && '0' <= text[4] <= '9'
            &&& '0' <= text[6] <= '5' && '0' <= text[7] <= '9'
        }),
{
    reveal_strlit(":");
}

} // verus!
