//! The order of the process list's columns.

use vstd::arithmetic::power2::{
    lemma_pow2_pos, lemma_pow2_strictly_increases, lemma_pow2_unfold, pow2,
};
use vstd::prelude::*;

use crate::text::{
    contains, is_text_less, law_occurs_in, law_text_order_total, law_text_order_transitive,
    occurs_in, text_less,
};

verus! {

/// A column of the process list that the list can be sorted by.
#[derive(Clone, Copy, Debug, PartialEq, Eq, Structural)]
pub enum SortColumn {
    Pid,
    Name,
    Cpu,
    Ram,
    Disk,
}

/// What the order of the list and the search in it go by.
pub struct Key {
    pub pid: usize,
    pub lower_name: Seq<char>,
    pub cpu_usage_bits: u32,
    pub memory: u64,
    pub read_bytes: u64,
    pub written_bytes: u64,
}

/// The part of a process that the list is sorted and searched by.
#[derive(Debug)]
pub struct RowKey {
    pub pid: usize,
    /// The name in lower case.
    pub lower_name: String,
    /// The processor usage in percent, as the bits of an IEEE 754 single.
    pub cpu_usage_bits: u32,
    /// Memory in use, in bytes.
    pub memory: u64,
    /// Bytes read from disk.
    pub read_bytes: u64,
    /// Bytes written to disk.
    pub written_bytes: u64,
}

impl View for RowKey {
    type V = Key;

    open spec fn view(&self) -> Key {
        Key {
            pid: self.pid,
            lower_name: self.lower_name@,
            cpu_usage_bits: self.cpu_usage_bits,
            memory: self.memory,
            read_bytes: self.read_bytes,
            written_bytes: self.written_bytes,
        }
    }
}

/// Whether the bits of a single stand for "not a number".
pub open spec fn is_nan_bits(bits: u32) -> bool {
    bits as int % 0x8000_0000 > 0x7f80_0000
}

/// A number that orders the bits of singles as the singles themselves are
/// ordered: the magnitude bits, negated where the sign bit is set.
pub open spec fn single_rank(bits: u32) -> int {
    if bits < 0x8000_0000 {
        bits as int
    } else {
        0x8000_0000 - bits
    }
}

/// Whether the single behind `left` is less than the one behind `right`. A NaN
/// is neither less nor greater than anything.
pub open spec fn single_less(left: u32, right: u32) -> bool {
    !is_nan_bits(left) && !is_nan_bits(right) && single_rank(left) < single_rank(right)
}

/// Compares two singles, given by their bits.
pub fn is_single_less(left: u32, right: u32) -> (less: bool)
    ensures
        less == single_less(left, right),
{
    if left % 0x8000_0000 > 0x7f80_0000 || right % 0x8000_0000 > 0x7f80_0000 {
        false
    } else if left < 0x8000_0000 {
        right < 0x8000_0000 && left < right
    } else if right < 0x8000_0000 {
        left > 0x8000_0000 || right > 0
    } else {
        left > right
    }
}

impl Key {
    /// All the disk traffic of the process.
    pub open spec fn disk_bytes(self) -> nat {
        (self.read_bytes + self.written_bytes) as nat
    }

    /// Whether the disk traffic fits the counter it is summed up in.
    pub open spec fn disk_fits(self) -> bool {
        self.disk_bytes() <= u64::MAX
    }

    /// Whether the row has a place in the order of `column`: a NaN has none in
    /// the order of processor usage.
    pub open spec fn has_place(self, column: SortColumn) -> bool {
        column is Cpu ==> !is_nan_bits(self.cpu_usage_bits)
    }

    /// Whether this row is smaller than `other` in `column`.
    pub open spec fn less(self, other: Key, column: SortColumn) -> bool {
        match column {
            SortColumn::Pid => self.pid < other.pid,
            SortColumn::Name => text_less(self.lower_name, other.lower_name),
            SortColumn::Cpu => single_less(self.cpu_usage_bits, other.cpu_usage_bits),
            SortColumn::Ram => self.memory < other.memory,
            SortColumn::Disk => self.disk_bytes() < other.disk_bytes(),
        }
    }

    /// Whether this row stands above `other` when the list is sorted by `column`
    /// in the given direction.
    pub open spec fn above(self, other: Key, column: SortColumn, ascending: bool) -> bool {
        if ascending {
            self.less(other, column)
        } else {
            other.less(self, column)
        }
    }

    /// Whether a search for `needle` keeps the row: its name has the needle in
    /// it, both in lower case.
    pub open spec fn matches(self, needle: Seq<char>) -> bool {
        occurs_in(needle, self.lower_name)
    }
}

impl RowKey {
    /// Whether the row can be put in the order of `column` without its disk
    /// traffic overflowing.
    pub fn fits_column(&self, column: SortColumn) -> (fits: bool)
        ensures
            fits == (column is Disk ==> self@.disk_fits()),
    {
        match column {
            SortColumn::Disk => self.read_bytes <= u64::MAX - self.written_bytes,
            _ => true,
        }
    }

    /// Compares two rows in one column. Names are compared in lower case.
    pub fn is_less(&self, other: &RowKey, column: SortColumn) -> (less: bool)
        requires
            column is Disk ==> self@.disk_fits() && other@.disk_fits(),
        ensures
            less == self@.less(other@, column),
    {
        match column {
            SortColumn::Pid => self.pid < other.pid,
            SortColumn::Name => is_text_less(
                self.lower_name.as_str(),
                other.lower_name.as_str(),
            ),
            SortColumn::Cpu => is_single_less(self.cpu_usage_bits, other.cpu_usage_bits),
            SortColumn::Ram => self.memory < other.memory,
            SortColumn::Disk => {
                let left: u64 = self.read_bytes + self.written_bytes;
                let right: u64 = other.read_bytes + other.written_bytes;
                left < right
            },
        }
    }

    /// Decides whether this row has to stand above `other`.
    pub fn is_above(&self, other: &RowKey, column: SortColumn, ascending: bool) -> (above: bool)
        requires
            column is Disk ==> self@.disk_fits() && other@.disk_fits(),
        ensures
            above == self@.above(other@, column, ascending),
    {
        if ascending {
            self.is_less(other, column)
        } else {
            other.is_less(self, column)
        }
    }

    /// Decides whether a search for `needle` keeps the row.
    pub fn is_match(&self, needle: &str) -> (found: bool)
        ensures
            found == self@.matches(needle@),
    {
        contains(self.lower_name.as_str(), needle)
    }
}

/// The order of a column is a strict weak order on the rows that have a place
/// in it: nothing is less than itself, "less" is transitive, and so is "neither
/// less nor greater".
pub proof fn law_column_order(a: Key, b: Key, c: Key, column: SortColumn)
    requires
        a.has_place(column),
        b.has_place(column),
        c.has_place(column),
    ensures
        !a.less(a, column),
        a.less(b, column) ==> !b.less(a, column),
        a.less(b, column) && b.less(c, column) ==> a.less(c, column),
        !a.less(b, column) && !b.less(c, column) ==> !a.less(c, column),
{
    if column is Name {
        let (p, q, r) = (a.lower_name, b.lower_name, c.lower_name);
        law_text_order_total(p, p);
        law_text_order_total(p, q);
        law_text_order_total(q, r);
        law_text_order_total(p, r);
        if text_less(p, q) && text_less(q, r) {
            law_text_order_transitive(p, q, r);
        }
        if text_less(r, q) && text_less(q, p) {
            law_text_order_transitive(r, q, p);
        }
    }
}

/// A key holds just what the row key holds.
pub proof fn law_row_key_view(key: RowKey)
    ensures
        key@.pid == key.pid,
        key@.lower_name == key.lower_name@,
        key@.cpu_usage_bits == key.cpu_usage_bits,
        key@.memory == key.memory,
        key@.read_bytes == key.read_bytes,
        key@.written_bytes == key.written_bytes,
{
}

/// The columns go by the whole of what they show: the numbers of processes, of
/// bytes in memory and of bytes moved to and from disk as numbers, however large,
/// and names as texts. Descending order is ascending order turned round.
pub proof fn law_columns_compare_fields(a: Key, b: Key)
    ensures
        a.less(b, SortColumn::Pid) <==> a.pid < b.pid,
        a.less(b, SortColumn::Ram) <==> a.memory < b.memory,
        a.less(b, SortColumn::Disk) <==> a.read_bytes + a.written_bytes < b.read_bytes
            + b.written_bytes,
        a.less(b, SortColumn::Name) <==> text_less(a.lower_name, b.lower_name),
        a.less(b, SortColumn::Cpu) <==> single_less(a.cpu_usage_bits, b.cpu_usage_bits),
        a.disk_fits() <==> a.read_bytes + a.written_bytes <= u64::MAX,
        forall|column: SortColumn|
            column !is Cpu ==> #[trigger] a.has_place(column),
        a.has_place(SortColumn::Cpu) <==> !is_nan_bits(a.cpu_usage_bits),
        forall|column: SortColumn| #[trigger] a.above(b, column, true) == a.less(b, column),
        forall|column: SortColumn| #[trigger] a.above(b, column, false) == b.less(a, column),
{
}

/// A search goes through the whole name: it keeps a row exactly when the name is
/// something, what is looked for and something more.
pub proof fn law_search_finds_any_part(key: Key, needle: Seq<char>)
    ensures
        key.matches(needle) <==> exists|prefix: Seq<char>, suffix: Seq<char>|
            key.lower_name == #[trigger] (prefix + needle + suffix),
{
    law_occurs_in(needle, key.lower_name);
}

/// The number that the bits of a single stand for, in units of the least positive
/// one: a sign bit, eight bits of exponent and 23 of fraction. The infinities
/// count as the number that would come next.
pub open spec fn single_value(bits: u32) -> int {
    let exponent = (bits as nat / 0x80_0000) % 0x100;
    let fraction = bits as nat % 0x80_0000;
    let magnitude = if exponent == 0 {
        fraction
    } else {
        (0x80_0000 + fraction) * pow2((exponent - 1) as nat)
    };
    if bits as nat / 0x8000_0000 == 1 {
        -magnitude
    } else {
        magnitude as int
    }
}

/// The order of usage is the order of the numbers that the bits stand for. The
/// bits stand for none where the exponent is all ones and the fraction is not
/// zero, and such bits are not less than any nor any less than them.
pub proof fn law_single_order(left: u32, right: u32)
    ensures
        is_nan_bits(left) <==> (left as nat / 0x80_0000) % 0x100 == 0xff && left as nat % 0x80_0000
            != 0,
        is_nan_bits(left) || is_nan_bits(right) ==> !single_less(left, right),
        !is_nan_bits(left) && !is_nan_bits(right) ==> (single_less(left, right) <==> single_value(
            left,
        ) < single_value(right)),
{
    let (x, y) = ((left as nat % 0x8000_0000) as u32, (right as nat % 0x8000_0000) as u32);
    lemma_magnitude(x);
    lemma_magnitude(y);
    assert(single_value(left) == if left >= 0x8000_0000 {
        -single_value(x)
    } else {
        single_value(x)
    });
    assert(single_value(right) == if right >= 0x8000_0000 {
        -single_value(y)
    } else {
        single_value(y)
    });
    if x < y {
        lemma_magnitudes_rise(x, y);
    }
    if y < x {
        lemma_magnitudes_rise(y, x);
    }
}

/// Bits without a sign stand for zero only where they are zero.
proof fn lemma_magnitude(x: u32)
    requires
        x < 0x8000_0000,
    ensures
        single_value(x) >= 0,
        single_value(x) == 0 <==> x == 0,
{
    let exponent = (x as nat / 0x80_0000) % 0x100;
    let fraction = x as nat % 0x80_0000;
    if exponent > 0 {
        lemma_pow2_pos((exponent - 1) as nat);
        assert((0x80_0000 + fraction) * pow2((exponent - 1) as nat) > 0) by (nonlinear_arith)
            requires
                pow2((exponent - 1) as nat) > 0,
        ;
    }
}

/// Of bits without a sign the larger ones stand for the larger number.
proof fn lemma_magnitudes_rise(x: u32, y: u32)
    requires
        x < y < 0x8000_0000,
    ensures
        single_value(x) < single_value(y),
{
    let (e, f) = ((x as nat / 0x80_0000) % 0x100, (y as nat / 0x80_0000) % 0x100);
    let (m, n) = (x as nat % 0x80_0000, y as nat % 0x80_0000);
    assert(e < f || (e == f && m < n));
    if f > 0 {
        let high = pow2((f - 1) as nat);
        lemma_pow2_pos((f - 1) as nat);
        assert((0x80_0000 + n) * high >= 0x80_0000 * high) by (nonlinear_arith);
        if e == f {
            assert((0x80_0000 + m) * high < (0x80_0000 + n) * high) by (nonlinear_arith)
                requires
                    m < n,
                    high > 0,
            ;
        } else if e > 0 {
            let low = pow2((e - 1) as nat);
            lemma_pow2_pos((e - 1) as nat);
            lemma_pow2_unfold(e);
            if e < f - 1 {
                lemma_pow2_strictly_increases(e, (f - 1) as nat);
            }
            assert((0x80_0000 + m) * low < 0x80_0000 * high) by (nonlinear_arith)
                requires
                    m < 0x80_0000,
                    low > 0,
                    2 * low <= high,
            ;
        } else {
            assert(0x80_0000 * high >= 0x80_0000);
        }
    }
}

} // verus!
