//! The status codes that the native system calls answer with.

use vstd::prelude::*;

use crate::text::{
    append_hex, digit_value, hex, law_hex_reads_back, law_numeral_injective, numeral,
};

verus! {

/// Whether a status reports success. Negative codes are failures.
pub open spec fn is_success(status: i32) -> bool {
    status >= 0
}

/// The 32 bits of a status, read as an unsigned number.
pub open spec fn status_bits(status: i32) -> nat {
    if status >= 0 {
        status as nat
    } else {
        (status + 0x1_0000_0000) as nat
    }
}

/// What is said of a failed call: `lead`, then the status in hexadecimal.
pub open spec fn failure_text(lead: Seq<char>, status: i32) -> Seq<char> {
    lead + hex(status_bits(status))
}

/// Words the failure of a call.
pub(crate) fn failure(lead: &str, status: i32) -> (message: String)
    ensures
        message@ == failure_text(lead@, status),
{
    let bits: u64 = if status >= 0 {
        status as u64
    } else {
        (status as i64 + 0x1_0000_0000) as u64
    };
    let mut message: String = lead.to_owned();
    append_hex(&mut message, bits);
    message
}

/// The text for a failure tells which status it was: different statuses are
/// worded differently.
pub proof fn law_failure_text_tells_status(lead: Seq<char>, status: i32, other: i32)
    requires
        failure_text(lead, status) == failure_text(lead, other),
    ensures
        status == other,
{
    let (a, b) = (status_bits(status), status_bits(other));
    let (x, y) = (failure_text(lead, status), failure_text(lead, other));
    let start = (lead.len() + "0x"@.len()) as int;
    assert(numeral(a, 16) =~= x.subrange(start, x.len() as int));
    assert(numeral(b, 16) =~= y.subrange(start, y.len() as int));
    law_numeral_injective(a, b, 16);
}

/// A status reports success exactly when it is not negative, that is when the
/// highest of its 32 bits is clear. Its bits are the status itself, up to a
/// multiple of two to the 32.
pub proof fn law_status_bits(status: i32)
    ensures
        is_success(status) <==> status >= 0,
        is_success(status) <==> status_bits(status) < 0x8000_0000,
        status_bits(status) < 0x1_0000_0000,
        (status_bits(status) - status) % 0x1_0000_0000 == 0,
{
}

/// What is said of a failure begins with the words it was given and goes on with
/// `0x` and digits that read as the bits of the status in hexadecimal.
pub proof fn law_failure_text_reads_back(lead: Seq<char>, status: i32)
    ensures
        failure_text(lead, status).len() > lead.len() + 2,
        failure_text(lead, status).take(lead.len() as int) == lead,
        failure_text(lead, status)[lead.len() as int] == '0',
        failure_text(lead, status)[lead.len() as int + 1] == 'x',
        failure_text(lead, status).skip(lead.len() as int + 2).fold_left(
            0int,
            |value: int, digit: char| value * 16 + digit_value(digit),
        ) == status_bits(status),
        failure_text(lead, status)[lead.len() as int + 2] == '0' ==> status == 0,
        forall|i: int|
            lead.len() + 2 <= i < failure_text(lead, status).len() ==> {
                let digit = #[trigger] failure_text(lead, status)[i];
                '0' <= digit <= '9' || 'A' <= digit <= 'F'
            },
{
    let bits = status_bits(status);
    law_hex_reads_back(bits);
    let text = failure_text(lead, status);
    assert(text.take(lead.len() as int) =~= lead);
    assert(text[lead.len() as int] == hex(bits)[0]);
    assert(text[lead.len() as int + 1] == hex(bits)[1]);
    assert(text.skip(lead.len() as int + 2) =~= hex(bits).skip(2));
    assert(text[lead.len() as int + 2] == hex(bits)[2]);
    assert forall|i: int| lead.len() + 2 <= i < text.len() implies ({
        let digit = #[trigger] text[i];
        '0' <= digit <= '9' || 'A' <= digit <= 'F'
    }) by {
        assert(text[i] == hex(bits)[i - lead.len()]);
    }
}

} // verus!
