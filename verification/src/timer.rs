//! The resolution of the system timer. Times are in units of 100 nanoseconds,
//! as the system counts them.

use vstd::prelude::*;

use crate::ntstatus::{failure, failure_text, is_success};

verus! {

/// The answer to a query of the timer: the status that the call returned, and
/// the three times that it filled in, in its order. Gives the maximum, the
/// minimum and the current resolution, or the failure.
pub fn get_timer_resolution(
    status: i32,
    min: u32,
    max: u32,
    current: u32,
) -> (result: Result<(u32, u32, u32), String>)
    ensures
        is_success(status) ==> result == Ok::<(u32, u32, u32), String>((max, min, current)),
        !is_success(status) ==> (result matches Err(message) && message@ == failure_text(
            "NtQueryTimerResolution failed with status: "@,
            status,
        )),
{
    if status >= 0 {
        Ok((max, min, current))
    } else {
        Err(failure("NtQueryTimerResolution failed with status: ", status))
    }
}

/// The answer to a request for a timer resolution: the status that the call
/// returned and the time that it filled in. Gives the resolution that is now in
/// force, or the failure.
pub fn set_timer_resolution(status: i32, actual_time: u32) -> (result: Result<u32, String>)
    ensures
        is_success(status) ==> result == Ok::<u32, String>(actual_time),
        !is_success(status) ==> (result matches Err(message) && message@ == failure_text(
            "NtSetTimerResolution failed: "@,
            status,
        )),
{
    if status >= 0 {
        Ok(actual_time)
    } else {
        Err(failure("NtSetTimerResolution failed: ", status))
    }
}

/// The three resolutions in milliseconds, written out.
#[derive(Debug)]
pub struct ResolutionTexts {
    pub max: String,
    pub min: String,
    pub current: String,
}

/// A resolution with a name before it.
pub open spec fn resolution_text(name: Seq<char>, milliseconds: Seq<char>) -> Seq<char> {
    name + milliseconds + " ms"@
}

fn resolution(name: &str, milliseconds: &str) -> (text: String)
    ensures
        text@ == resolution_text(name@, milliseconds@),
{
    let mut text: String = name.to_owned();
    text.append(milliseconds);
    text.append(" ms");
    text
}

/// What the memory page says of the timer: a line for each resolution, or one
/// line for the failure.
pub fn timer_lines(answer: &Result<ResolutionTexts, String>) -> (lines: Vec<String>)
    ensures
        match *answer {
            Ok(times) => {
                &&& lines.len() == 3
                &&& lines[0]@ == resolution_text("Maximum Resolution: "@, times.max@)
                &&& lines[1]@ == resolution_text("Minimum Resolution: "@, times.min@)
                &&& lines[2]@ == resolution_text("Current Resolution: "@, times.current@)
            },
            Err(error) => {
                &&& lines.len() == 1
                &&& lines[0]@ == "Error fetching timer: "@ + error@
            },
        },
{
    let mut lines: Vec<String> = Vec::new();
    match answer {
        Ok(times) => {
            lines.push(resolution("Maximum Resolution: ", times.max.as_str()));
            lines.push(resolution("Minimum Resolution: ", times.min.as_str()));
            lines.push(resolution("Current Resolution: ", times.current.as_str()));
        },
        Err(error) => {
            let mut line: String = "Error fetching timer: ".to_owned();
            line.append(error.as_str());
            lines.push(line);
        },
    }
    lines
}

/// A resolution is worded as its name, its milliseconds as given and the unit.
pub proof fn law_resolution_text(name: Seq<char>, milliseconds: Seq<char>)
    ensures
        resolution_text(name, milliseconds).len() == name.len() + milliseconds.len() + 3,
        resolution_text(name, milliseconds).take(name.len() as int) == name,
        resolution_text(name, milliseconds).subrange(
            name.len() as int,
            (name.len() + milliseconds.len()) as int,
        ) == milliseconds,
        resolution_text(name, milliseconds).skip((name.len() + milliseconds.len()) as int)
            == " ms"@,
{
    reveal_strlit(" ms");
    let text = resolution_text(name, milliseconds);
    assert(text.take(name.len() as int) =~= name);
    assert(text.subrange(name.len() as int, (name.len() + milliseconds.len()) as int)
        =~= milliseconds);
    assert(text.skip((name.len() + milliseconds.len()) as int) =~= " ms"@);
}

} // verus!
