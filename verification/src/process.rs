//! The rows of the process list, and which of them are shown.

use vstd::prelude::*;

use crate::listing::{
    all_have_place, is_sorted, kept, law_listing_shows_each_match_once, law_search_keeps_matches,
    law_sort_overflows, law_sorted_fields, sort_overflows, sorted_listing, views,
};
use crate::memory::{bytes_to_mb, megabytes};
use crate::sort_key::{
    is_nan_bits, law_columns_compare_fields, law_search_finds_any_part, single_value, Key, RowKey,
    SortColumn,
};
use crate::text::{append_decimal, decimal, lowercase, text_less, to_lowercase};

verus! {

/// What the list shows of one process.
#[derive(Debug)]
pub struct ProcessRow {
    pub pid: usize,
    pub name: String,
    /// The processor usage in percent, as the bits of an IEEE 754 single.
    pub cpu_usage_bits: u32,
    /// Memory in use, in bytes.
    pub memory: u64,
    /// Bytes read from disk.
    pub read_bytes: u64,
    /// Bytes written to disk.
    pub written_bytes: u64,
}

impl ProcessRow {
    /// What the row is sorted and searched by: its name counts in lower case.
    pub open spec fn key(self) -> Key {
        Key {
            pid: self.pid,
            lower_name: lowercase(self.name@),
            cpu_usage_bits: self.cpu_usage_bits,
            memory: self.memory,
            read_bytes: self.read_bytes,
            written_bytes: self.written_bytes,
        }
    }

    /// Makes the key that the row is sorted and searched by.
    pub fn to_key(&self) -> (key: RowKey)
        ensures
            key@ == self.key(),
    {
        RowKey {
            pid: self.pid,
            lower_name: to_lowercase(self.name.as_str()),
            cpu_usage_bits: self.cpu_usage_bits,
            memory: self.memory,
            read_bytes: self.read_bytes,
            written_bytes: self.written_bytes,
        }
    }
}

/// The cells of one row of the list that are made of whole numbers.
#[derive(Debug)]
pub struct RowTexts {
    pub pid: String,
    pub ram: String,
    pub disk: String,
}

/// Disk traffic in whole kilobytes, read and written.
pub open spec fn disk_text(read_bytes: nat, written_bytes: nat) -> Seq<char> {
    decimal(read_bytes / 1024) + "K / "@ + decimal(written_bytes / 1024) + "K"@
}

impl ProcessRow {
    /// Words the cells of the row.
    pub fn row_texts(&self) -> (texts: RowTexts)
        ensures
            texts.pid@ == decimal(self.pid as nat),
            texts.ram@ == decimal(megabytes(self.memory as nat)),
            texts.disk@ == disk_text(self.read_bytes as nat, self.written_bytes as nat),
    {
        let mut pid: String = String::new();
        append_decimal(&mut pid, self.pid as u64);
        let mut ram: String = String::new();
        append_decimal(&mut ram, bytes_to_mb(self.memory));
        let mut disk: String = String::new();
        append_decimal(&mut disk, self.read_bytes / 1024);
        disk.append("K / ");
        append_decimal(&mut disk, self.written_bytes / 1024);
        disk.append("K");
        assert(pid@ =~= decimal(self.pid as nat));
        assert(ram@ =~= decimal(megabytes(self.memory as nat)));
        assert(disk@ =~= disk_text(self.read_bytes as nat, self.written_bytes as nat));
        RowTexts { pid, ram, disk }
    }
}

/// The title over the list.
pub fn process_heading(process_count: usize) -> (heading: String)
    ensures
        heading@ == "Exuberant Optimizer ("@ + decimal(process_count as nat) + " processes)"@,
{
    let mut heading: String = "Exuberant Optimizer (".to_owned();
    append_decimal(&mut heading, process_count as u64);
    heading.append(" processes)");
    heading
}

/// The name of the processor, if it has one.
pub open spec fn brand_text(brand: Option<&str>) -> Seq<char> {
    match brand {
        Some(brand) => brand@,
        None => "Unknown CPU"@,
    }
}

/// The line on the processor: the brand of its first logical thread, and how
/// many of them there are.
pub fn cpu_heading(brand: Option<&str>, thread_count: usize) -> (heading: String)
    ensures
        heading@ == "CPU: "@ + brand_text(brand) + " | Threads "@ + decimal(thread_count as nat),
{
    let brand: &str = match brand {
        Some(brand) => brand,
        None => "Unknown CPU",
    };
    let mut heading: String = "CPU: ".to_owned();
    heading.append(brand);
    heading.append(" | Threads ");
    append_decimal(&mut heading, thread_count as u64);
    heading
}

/// The keys of some rows.
pub open spec fn keys_of(rows: Seq<ProcessRow>) -> Seq<Key> {
    Seq::new(rows.len(), |i: int| rows[i].key())
}

/// What is looked for in the lower case names when the search box holds
/// `query`.
pub open spec fn needle_of(query: Seq<char>) -> Seq<char> {
    if query.len() == 0 {
        Seq::empty()
    } else {
        lowercase(query)
    }
}

/// The rows to show, as positions in `rows`: those whose name has the query in
/// it, upper and lower case alike, sorted by `column`, equal rows in the order
/// in which they were reported. There is no answer where the list is sorted by
/// disk traffic and that of a shown row overflows. A usage that is not a number
/// has no place in the order of usage; with one among the rows that are shown,
/// nothing is said of their order.
pub fn visible_rows(
    rows: &Vec<ProcessRow>,
    query: &str,
    column: SortColumn,
    ascending: bool,
) -> (listing: Option<Vec<usize>>)
    ensures
        listing is None <==> sort_overflows(keys_of(rows@), needle_of(query@), column),
        listing matches Some(shown) ==> {
            &&& shown@.to_multiset() == kept(keys_of(rows@), needle_of(query@)).to_multiset()
            &&& all_have_place(keys_of(rows@), column, kept(keys_of(rows@), needle_of(query@)))
                ==> is_sorted(keys_of(rows@), column, ascending, shown@)
        },
{
    let mut keys: Vec<RowKey> = Vec::new();
    let mut i: usize = 0;
    while i < rows.len()
        invariant
            i <= rows.len(),
            keys.len() == i,
            forall|k: int| 0 <= k < i ==> (#[trigger] keys@[k])@ == rows@[k].key(),
        decreases rows.len() - i,
    {
        keys.push(rows[i].to_key());
        i = i + 1;
    }
    assert(views(keys@) =~= keys_of(rows@));
    let needle: String = if query.is_empty() {
        String::new()
    } else {
        to_lowercase(query)
    };
    assert(needle@ =~= needle_of(query@));
    sorted_listing(&keys, needle.as_str(), column, ascending)
}

/// A search does not see the difference between upper and lower case: queries
/// with the same lower case form keep the same rows, and a name counts like
/// every other name with its lower case form.
pub proof fn law_search_ignores_case(
    rows: Seq<ProcessRow>,
    respelled: Seq<ProcessRow>,
    query: Seq<char>,
    other: Seq<char>,
)
    requires
        query.len() > 0 <==> other.len() > 0,
        lowercase(query) == lowercase(other),
        rows.len() == respelled.len(),
        forall|i: int|
            0 <= i < rows.len() ==> lowercase((#[trigger] rows[i]).name@) == lowercase(
                respelled[i].name@,
            ) && rows[i].pid == respelled[i].pid && rows[i].cpu_usage_bits
                == respelled[i].cpu_usage_bits && rows[i].memory == respelled[i].memory
                && rows[i].read_bytes == respelled[i].read_bytes && rows[i].written_bytes
                == respelled[i].written_bytes,
    ensures
        keys_of(rows) == keys_of(respelled),
        needle_of(query) == needle_of(other),
        kept(keys_of(rows), needle_of(query)) == kept(keys_of(respelled), needle_of(other)),
{
    assert(keys_of(rows) =~= keys_of(respelled));
}

/// A row is sorted and searched by its own fields, its name in lower case, and a
/// search looks for the lower case of all that was typed.
pub proof fn law_keys_are_the_rows(rows: Seq<ProcessRow>, query: Seq<char>, i: int)
    requires
        0 <= i < rows.len(),
    ensures
        keys_of(rows).len() == rows.len(),
        keys_of(rows)[i].pid == rows[i].pid,
        keys_of(rows)[i].lower_name == lowercase(rows[i].name@),
        keys_of(rows)[i].cpu_usage_bits == rows[i].cpu_usage_bits,
        keys_of(rows)[i].memory == rows[i].memory,
        keys_of(rows)[i].read_bytes == rows[i].read_bytes,
        keys_of(rows)[i].written_bytes == rows[i].written_bytes,
        rows[i].key() == keys_of(rows)[i],
        query.len() > 0 ==> needle_of(query) == lowercase(query),
        query.len() == 0 ==> needle_of(query).len() == 0,
{
}

/// What is shown are the rows whose lower case name is something, the lower case
/// query and something more, or all of them where nothing was typed, and each of
/// them once.
pub proof fn law_shown_rows_match(rows: Seq<ProcessRow>, query: Seq<char>, shown: Seq<usize>)
    requires
        rows.len() <= usize::MAX,
        shown.to_multiset() == kept(keys_of(rows), needle_of(query)).to_multiset(),
    ensures
        shown.no_duplicates(),
        forall|i: usize|
            #[trigger] shown.contains(i) <==> i < rows.len() && (query.len() == 0 || exists|
                prefix: Seq<char>,
                suffix: Seq<char>,
            |
                lowercase(rows[i as int].name@) == #[trigger] (prefix + lowercase(query)
                    + suffix)),
{
    let (keys, needle) = (keys_of(rows), needle_of(query));
    law_listing_shows_each_match_once(keys, needle, shown);
    assert forall|i: usize|
        #[trigger] shown.contains(i) <==> i < rows.len() && (query.len() == 0 || exists|
            prefix: Seq<char>,
            suffix: Seq<char>,
        |
            lowercase(rows[i as int].name@) == #[trigger] (prefix + lowercase(query) + suffix)) by {
        if i < rows.len() {
            law_keys_are_the_rows(rows, query, i as int);
            law_search_finds_any_part(keys[i as int], needle);
            if query.len() == 0 {
                let name = keys[i as int].lower_name;
                assert(name =~= Seq::empty() + needle + name);
            }
        }
    }
}

/// What is shown is sorted by the fields of the rows: from one row to a later one
/// the number that the list is sorted by does not fall when it is to rise, nor
/// rise when it is to fall, and names come in the order of their lower case
/// texts. Rows that agree in it keep their order. Where the list is sorted by
/// usage, all that is shown has to have one that is a number.
pub proof fn law_shown_rows_are_sorted(
    rows: Seq<ProcessRow>,
    query: Seq<char>,
    column: SortColumn,
    ascending: bool,
    shown: Seq<usize>,
    a: int,
    b: int,
)
    requires
        rows.len() <= usize::MAX,
        shown.to_multiset() == kept(keys_of(rows), needle_of(query)).to_multiset(),
        all_have_place(keys_of(rows), column, kept(keys_of(rows), needle_of(query))) ==> is_sorted(
            keys_of(rows),
            column,
            ascending,
            shown,
        ),
        column is Cpu ==> forall|i: usize|
            #[trigger] shown.contains(i) ==> !is_nan_bits(rows[i as int].cpu_usage_bits),
        0 <= a < b < shown.len(),
    ensures
        shown[a] < rows.len(),
        shown[b] < rows.len(),
        ({
            let (x, y) = (rows[shown[a] as int], rows[shown[b] as int]);
            let (first, second) = if ascending {
                (x, y)
            } else {
                (y, x)
            };
            &&& column is Pid ==> first.pid <= second.pid && (x.pid == y.pid ==> shown[a]
                < shown[b])
            &&& column is Ram ==> first.memory <= second.memory && (x.memory == y.memory
                ==> shown[a] < shown[b])
            &&& column is Disk ==> {
                &&& first.read_bytes + first.written_bytes <= second.read_bytes
                    + second.written_bytes
                &&& x.read_bytes + x.written_bytes == y.read_bytes + y.written_bytes ==> shown[a]
                    < shown[b]
            }
            &&& column is Cpu ==> {
                &&& single_value(first.cpu_usage_bits) <= single_value(second.cpu_usage_bits)
                &&& single_value(x.cpu_usage_bits) == single_value(y.cpu_usage_bits) ==> shown[a]
                    < shown[b]
            }
            &&& column is Name ==> {
                let (p, q) = (lowercase(first.name@), lowercase(second.name@));
                &&& p == q || text_less(p, q)
                &&& p == q ==> shown[a] < shown[b]
            }
        }),
{
    let (keys, needle) = (keys_of(rows), needle_of(query));
    let found = kept(keys, needle);
    law_listing_shows_each_match_once(keys, needle, shown);
    law_search_keeps_matches(keys, needle);
    assert forall|k: int| 0 <= k < found.len() implies keys[#[trigger] found[k] as int].has_place(
        column,
    ) by {
        assert(found.contains(found[k]));
        assert(shown.contains(found[k]));
        law_columns_compare_fields(keys[found[k] as int], keys[found[k] as int]);
    }
    assert(shown.contains(shown[a]) && shown.contains(shown[b]));
    law_keys_are_the_rows(rows, query, shown[a] as int);
    law_keys_are_the_rows(rows, query, shown[b] as int);
    law_sorted_fields(keys, column, ascending, shown, a, b);
}

/// There is nothing to show exactly when the list is sorted by disk traffic and
/// two rows or more match, of which one has moved more bytes than its counter
/// holds.
pub proof fn law_nothing_shown_on_overflow(
    rows: Seq<ProcessRow>,
    query: Seq<char>,
    column: SortColumn,
    shown: Seq<usize>,
)
    requires
        rows.len() <= usize::MAX,
        shown.to_multiset() == kept(keys_of(rows), needle_of(query)).to_multiset(),
    ensures
        sort_overflows(keys_of(rows), needle_of(query), column) <==> column is Disk && shown.len()
            >= 2 && exists|i: usize|
            #[trigger] shown.contains(i) && rows[i as int].read_bytes + rows[i as int].written_bytes
                > u64::MAX,
{
    let (keys, needle) = (keys_of(rows), needle_of(query));
    law_sort_overflows(keys, needle, column);
    law_listing_shows_each_match_once(keys, needle, shown);
    if sort_overflows(keys, needle, column) {
        let (i, j) = choose|i: int, j: int|
            0 <= i < keys.len() && 0 <= j < keys.len() && i != j && (#[trigger] keys[i]).matches(
                needle,
            ) && (#[trigger] keys[j]).matches(needle) && keys[i].read_bytes
                + keys[i].written_bytes > u64::MAX;
        assert(shown.contains(i as usize) && shown.contains(j as usize));
        law_keys_are_the_rows(rows, query, i);
    }
    if column is Disk && shown.len() >= 2 && exists|i: usize|
        #[trigger] shown.contains(i) && rows[i as int].read_bytes + rows[i as int].written_bytes
            > u64::MAX {
        let i = choose|i: usize|
            #[trigger] shown.contains(i) && rows[i as int].read_bytes
                + rows[i as int].written_bytes > u64::MAX;
        let j = if shown[0] == i {
            shown[1]
        } else {
            shown[0]
        };
        assert(shown.contains(j));
        law_keys_are_the_rows(rows, query, i as int);
        assert(keys[i as int].matches(needle) && keys[j as int].matches(needle));
    }
}

/// Disk traffic is worded as two numbers, each the whole kilobytes of its own
/// direction, rounded down; a processor without a brand is called unknown, and one
/// with a brand by all of it.
pub proof fn law_cells_and_headings(read_bytes: nat, written_bytes: nat, brand: Option<&str>)
    ensures
        exists|read_kb: nat, written_kb: nat|
            1024 * read_kb <= read_bytes < 1024 * (read_kb + 1) && 1024 * written_kb
                <= written_bytes < 1024 * (written_kb + 1) && disk_text(read_bytes, written_bytes)
                == #[trigger] decimal(read_kb) + "K / "@ + #[trigger] decimal(written_kb) + "K"@,
        brand matches Some(name) ==> brand_text(brand) == name@,
        brand is None ==> brand_text(brand) == "Unknown CPU"@,
{
    let (read_kb, written_kb) = (read_bytes / 1024, written_bytes / 1024);
    assert(disk_text(read_bytes, written_bytes) == decimal(read_kb) + "K / "@ + decimal(written_kb)
        + "K"@);
}

} // verus!
