//! How much memory there is, how much of it is cache, and when to flush that.

use vstd::prelude::*;

use crate::ntstatus::{failure, failure_text, is_success};
use crate::text::{append_decimal, decimal};

verus! {

/// The page lists of the Windows memory manager, in the order in which the
/// system reports them.
#[derive(Debug)]
pub struct SystemMemoryListInformation {
    pub zero_page_count: usize,
    pub free_page_count: usize,
    pub modified_page_count: usize,
    pub modified_no_write_page_count: usize,
    pub bad_page_count: usize,
    pub page_count_by_priority: [usize; 8],
    pub repurposed_pages_by_priority: [usize; 8],
    pub modified_page_count_page_file: usize,
}

impl Default for SystemMemoryListInformation {
    /// All counts zero.
    fn default() -> (info: Self)
        ensures
            info.zero_page_count == 0,
            info.free_page_count == 0,
            info.modified_page_count == 0,
            info.modified_no_write_page_count == 0,
            info.bad_page_count == 0,
            forall|i: int| 0 <= i < 8 ==> info.page_count_by_priority@[i] == 0,
            forall|i: int| 0 <= i < 8 ==> info.repurposed_pages_by_priority@[i] == 0,
            info.modified_page_count_page_file == 0,
    {
        SystemMemoryListInformation {
            zero_page_count: 0,
            free_page_count: 0,
            modified_page_count: 0,
            modified_no_write_page_count: 0,
            bad_page_count: 0,
            page_count_by_priority: [0, 0, 0, 0, 0, 0, 0, 0],
            repurposed_pages_by_priority: [0, 0, 0, 0, 0, 0, 0, 0],
            modified_page_count_page_file: 0,
        }
    }
}

/// The sum of some page counts.
pub open spec fn page_total(counts: Seq<usize>) -> nat
    decreases counts.len(),
{
    if counts.len() == 0 {
        0
    } else {
        page_total(counts.drop_last()) + counts.last() as nat
    }
}

/// Whole megabytes in some bytes.
pub open spec fn megabytes(bytes: nat) -> nat {
    bytes / 0x10_0000
}

impl SystemMemoryListInformation {
    /// The pages on the standby list: those of all eight priorities.
    pub open spec fn standby_pages(self) -> nat {
        page_total(self.page_count_by_priority@)
    }

    /// The size of the standby list in bytes; a page has 4096.
    pub open spec fn standby_bytes(self) -> nat {
        self.standby_pages() * 4096
    }

    /// Whether the standby list can be counted: in pages as a `usize`, in bytes
    /// as a `u64`.
    pub open spec fn countable(self) -> bool {
        self.standby_pages() <= usize::MAX && self.standby_bytes() <= u64::MAX
    }

    /// Tells whether the standby list can be counted.
    pub fn is_countable(&self) -> (countable: bool)
        ensures
            countable == self.countable(),
    {
        let mut pages: u128 = 0;
        let mut i: usize = 0;
        while i < 8
            invariant
                i <= 8,
                pages == page_total(self.page_count_by_priority@.take(i as int)),
                pages <= i * usize::MAX,
            decreases 8 - i,
        {
            assert(self.page_count_by_priority@.take(i + 1).drop_last()
                =~= self.page_count_by_priority@.take(i as int));
            pages = pages + self.page_count_by_priority[i] as u128;
            i = i + 1;
        }
        assert(self.page_count_by_priority@.take(8) =~= self.page_count_by_priority@);
        pages <= usize::MAX as u128 && pages * 4096 <= u64::MAX as u128
    }
}

/// Bytes to whole megabytes.
pub fn bytes_to_mb(bytes: u64) -> (mb: u64)
    ensures
        mb == megabytes(bytes as nat),
{
    bytes / 1024 / 1024
}

/// The answer to a query of the memory lists: `status` is what the call
/// returned and `info` what it filled in. Gives the size of the standby list
/// in megabytes, or the failure.
pub fn get_standby_list_mb(status: i32, info: &SystemMemoryListInformation) -> (result: Result<
    u64,
    String,
>)
    requires
        is_success(status) ==> info.countable(),
    ensures
        is_success(status) ==> (result matches Ok(mb) && mb == megabytes(
            info.standby_bytes(),
        )),
        status >= 0 <==> result is Ok,
        !is_success(status) ==> (result matches Err(message) && message@
            == failure_text("NtQuerySystemInformation failed: "@, status)),
{
    if status < 0 {
        return Err(failure("NtQuerySystemInformation failed: ", status));
    }
    let mut pages: usize = 0;
    let mut i: usize = 0;
    proof {
        assert(info.page_count_by_priority@.take(8) =~= info.page_count_by_priority@);
    }
    while i < 8
        invariant
            i <= 8,
            pages == page_total(info.page_count_by_priority@.take(i as int)),
            info.page_count_by_priority@.take(8) == info.page_count_by_priority@,
            info.countable(),
        decreases 8 - i,
    {
        proof {
            assert(info.page_count_by_priority@.take(i + 1).drop_last()
                =~= info.page_count_by_priority@.take(i as int));
            lemma_page_total_grows(info.page_count_by_priority@, i + 1);
        }
        pages = pages + info.page_count_by_priority[i];
        i = i + 1;
    }
    let bytes: u64 = pages as u64 * 4096;
    Ok(bytes_to_mb(bytes))
}

/// No beginning of a list of counts adds up to more than the whole list.
proof fn lemma_page_total_grows(counts: Seq<usize>, n: int)
    requires
        0 <= n <= counts.len(),
    ensures
        page_total(counts.take(n)) <= page_total(counts),
    decreases counts.len(),
{
    if n < counts.len() {
        lemma_page_total_grows(counts.drop_last(), n);
        assert(counts.drop_last().take(n) =~= counts.take(n));
    } else {
        assert(counts.take(n) =~= counts);
    }
}

/// The answer to the command that flushes the standby list, by the status that
/// the call returned.
pub fn purge_standby_list(status: i32) -> (result: Result<(), String>)
    ensures
        is_success(status) ==> result is Ok,
        !is_success(status) ==> (result matches Err(message) && message@ == failure_text(
            "NtSetSystemInformation failed with NTSTATUS code : "@,
            status,
        )),
{
    if status >= 0 {
        Ok(())
    } else {
        Err(failure("NtSetSystemInformation failed with NTSTATUS code : ", status))
    }
}

/// What is said where the privilege to flush memory lists cannot be had.
pub fn privilege_warning(error: &str) -> (warning: String)
    ensures
        warning@ == "Failed to enable privilege. Are you running as Admin? Error: "@ + error@,
{
    let mut warning: String =
        "Failed to enable privilege. Are you running as Admin? Error: ".to_owned();
    warning.append(error);
    warning
}

/// The size of the standby list to reckon with: none where it is not known.
pub open spec fn known_standby_mb(standby: Result<u64, String>) -> nat {
    match standby {
        Ok(mb) => mb as nat,
        Err(_) => 0,
    }
}

/// The memory that is really free: what is available, less the standby list,
/// in megabytes.
pub open spec fn free_mb(avail_phys: nat, standby_mb: nat) -> nat {
    if standby_mb <= megabytes(avail_phys) {
        (megabytes(avail_phys) - standby_mb) as nat
    } else {
        0
    }
}

/// Whether the standby list is to be flushed: it has grown to `at_standby_mb`
/// and free memory has sunk to `at_free_mb`.
pub open spec fn purge_due(
    avail_phys: nat,
    standby_mb: nat,
    at_standby_mb: nat,
    at_free_mb: nat,
) -> bool {
    standby_mb >= at_standby_mb && free_mb(avail_phys, standby_mb) <= at_free_mb
}

/// The size of the standby list to reckon with.
pub fn standby_or_zero(standby: &Result<u64, String>) -> (mb: u64)
    ensures
        mb == known_standby_mb(*standby),
{
    match standby {
        Ok(mb) => *mb,
        Err(_) => 0,
    }
}

/// Free memory in megabytes, from the available bytes.
pub fn true_free_mb(avail_phys: u64, standby_mb: u64) -> (mb: u64)
    ensures
        mb == free_mb(avail_phys as nat, standby_mb as nat),
{
    bytes_to_mb(avail_phys).saturating_sub(standby_mb)
}

/// Decides whether the standby list is to be flushed.
pub fn is_purge_due(
    avail_phys: u64,
    standby_mb: u64,
    at_standby_mb: u64,
    at_free_mb: u64,
) -> (due: bool)
    ensures
        due == purge_due(
            avail_phys as nat,
            standby_mb as nat,
            at_standby_mb as nat,
            at_free_mb as nat,
        ),
{
    standby_mb >= at_standby_mb && true_free_mb(avail_phys, standby_mb) <= at_free_mb
}

/// What the memory page says of the memory.
#[derive(Debug)]
pub struct MemorySummary {
    pub total: String,
    pub standby: String,
    pub free: String,
    /// What to complain of where the standby list is not known.
    pub warning: Option<String>,
}

/// An amount of memory with a name before it.
pub open spec fn amount_text(name: Seq<char>, mb: nat) -> Seq<char> {
    name + decimal(mb) + " MB"@
}

fn amount(name: &str, mb: u64) -> (text: String)
    ensures
        text@ == amount_text(name@, mb as nat),
{
    let mut text: String = name.to_owned();
    append_decimal(&mut text, mb);
    text.append(" MB");
    text
}

/// Words what is known of the memory: all of it and what is available of it in
/// bytes, and the size of the standby list, or why that is not known.
pub fn memory_summary(
    total_phys: u64,
    avail_phys: u64,
    standby: &Result<u64, String>,
) -> (summary: MemorySummary)
    ensures
        summary.total@ == amount_text("Total MB: "@, megabytes(total_phys as nat)),
        summary.standby@ == amount_text("Standby List: "@, known_standby_mb(*standby)),
        summary.free@ == amount_text(
            "Free MB: "@,
            free_mb(avail_phys as nat, known_standby_mb(*standby)),
        ),
        match *standby {
            Ok(_) => summary.warning is None,
            Err(error) => summary.warning matches Some(warning) && warning@
                == "Error getting standby list: "@ + error@,
        },
{
    let standby_mb: u64 = standby_or_zero(standby);
    let warning: Option<String> = match standby {
        Ok(_) => None,
        Err(error) => {
            let mut warning: String = "Error getting standby list: ".to_owned();
            warning.append(error.as_str());
            Some(warning)
        },
    };
    MemorySummary {
        total: amount("Total MB: ", bytes_to_mb(total_phys)),
        standby: amount("Standby List: ", standby_mb),
        free: amount("Free MB: ", true_free_mb(avail_phys, standby_mb)),
        warning,
    }
}

/// A page list of some pages has a 256th of that in megabytes.
pub proof fn law_standby_megabytes(info: SystemMemoryListInformation)
    ensures
        megabytes(info.standby_bytes()) == info.standby_pages() / 256,
{
}

/// What is free and what is on standby add up to what is available, as long as
/// the standby list is no larger than that; where it is larger, nothing is free.
pub proof fn law_free_and_standby(avail_phys: nat, standby_mb: nat)
    ensures
        standby_mb <= megabytes(avail_phys) ==> free_mb(avail_phys, standby_mb) + standby_mb
            == megabytes(avail_phys),
        standby_mb >= megabytes(avail_phys) ==> free_mb(avail_phys, standby_mb) == 0,
{
}

/// A purge that is due stays due while the standby list grows and available
/// memory shrinks, and when the thresholds are relaxed.
pub proof fn law_purge_stays_due(
    avail_phys: nat,
    standby_mb: nat,
    at_standby_mb: nat,
    at_free_mb: nat,
    less_avail_phys: nat,
    more_standby_mb: nat,
    lower_at_standby_mb: nat,
    higher_at_free_mb: nat,
)
    requires
        purge_due(avail_phys, standby_mb, at_standby_mb, at_free_mb),
        less_avail_phys <= avail_phys,
        more_standby_mb >= standby_mb,
        lower_at_standby_mb <= at_standby_mb,
        higher_at_free_mb >= at_free_mb,
    ensures
        purge_due(less_avail_phys, more_standby_mb, lower_at_standby_mb, higher_at_free_mb),
{
}

/// The standby list is what stands on the eight lists by priority, taken together,
/// and nothing else; it can be counted where that number of pages fits a `usize`
/// and 4096 times that number a `u64`.
pub proof fn law_standby_is_eight_lists(info: SystemMemoryListInformation)
    ensures
        ({
            let c = info.page_count_by_priority@;
            let pages = c[0] + c[1] + c[2] + c[3] + c[4] + c[5] + c[6] + c[7];
            &&& info.standby_pages() == pages
            &&& info.standby_bytes() == 4096 * pages
            &&& megabytes(info.standby_bytes()) == 4096 * pages / 1048576
            &&& info.countable() <==> pages <= usize::MAX && 4096 * pages <= u64::MAX
        }),
{
    let c = info.page_count_by_priority@;
    assert(c.take(8) =~= c);
    lemma_page_total_step(c, 0);
    lemma_page_total_step(c, 1);
    lemma_page_total_step(c, 2);
    lemma_page_total_step(c, 3);
    lemma_page_total_step(c, 4);
    lemma_page_total_step(c, 5);
    lemma_page_total_step(c, 6);
    lemma_page_total_step(c, 7);
    assert(page_total(c.take(0)) == 0);
}

proof fn lemma_page_total_step(counts: Seq<usize>, n: int)
    requires
        0 <= n < counts.len(),
    ensures
        page_total(counts.take(n + 1)) == page_total(counts.take(n)) + counts[n],
{
    assert(counts.take(n + 1).drop_last() =~= counts.take(n));
}

/// Only the lists by priority matter to the size of the standby list.
pub proof fn law_standby_ignores_other_counts(
    info: SystemMemoryListInformation,
    other: SystemMemoryListInformation,
)
    requires
        forall|i: int|
            0 <= i < 8 ==> info.page_count_by_priority@[i] == other.page_count_by_priority@[i],
    ensures
        info.standby_pages() == other.standby_pages(),
        info.standby_bytes() == other.standby_bytes(),
        info.countable() == other.countable(),
{
    law_standby_is_eight_lists(info);
    law_standby_is_eight_lists(other);
}

/// Megabytes are rounded down: that many are in the bytes, and one more is not.
pub proof fn law_megabytes_round_down(bytes: nat)
    ensures
        1048576 * megabytes(bytes) <= bytes,
        bytes < 1048576 * (megabytes(bytes) + 1),
{
}

/// A known standby list counts as it is, an unknown one not at all.
pub proof fn law_unknown_standby_counts_nothing(standby: Result<u64, String>)
    ensures
        standby matches Ok(mb) ==> known_standby_mb(standby) == mb,
        standby is Err ==> known_standby_mb(standby) == 0,
{
}

/// A purge is due exactly when both thresholds are met: there are as many
/// megabytes on standby as the one says, or more, and what they leave of the
/// available bytes is less than a megabyte above what the other says.
pub proof fn law_purge_due_by_thresholds(
    avail_phys: nat,
    standby_mb: nat,
    at_standby_mb: nat,
    at_free_mb: nat,
)
    ensures
        purge_due(avail_phys, standby_mb, at_standby_mb, at_free_mb) <==> standby_mb
            >= at_standby_mb && avail_phys < 1048576 * (standby_mb + at_free_mb + 1),
{
}

/// An amount is worded as its name, its number in decimal and the unit.
pub proof fn law_amount_text(name: Seq<char>, mb: nat)
    ensures
        amount_text(name, mb).len() == name.len() + decimal(mb).len() + 3,
        amount_text(name, mb).take(name.len() as int) == name,
        amount_text(name, mb).subrange(
            name.len() as int,
            amount_text(name, mb).len() - 3,
        ) == decimal(mb),
        amount_text(name, mb).skip(amount_text(name, mb).len() - 3) == " MB"@,
{
    reveal_strlit(" MB");
    let text = amount_text(name, mb);
    assert(text.take(name.len() as int) =~= name);
    assert(text.subrange(name.len() as int, text.len() - 3) =~= decimal(mb));
    assert(text.skip(text.len() - 3) =~= " MB"@);
}

} // verus!
