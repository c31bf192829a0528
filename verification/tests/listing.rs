use exuberant_optimizer::listing::{search, sorted_listing};
use exuberant_optimizer::process::{cpu_heading, process_heading, visible_rows, ProcessRow};
use exuberant_optimizer::sort_key::{is_single_less, RowKey, SortColumn};
use exuberant_optimizer::text::{append_decimal, append_hex};

fn row(pid: usize, name: &str, cpu: f32, memory: u64, read: u64, written: u64) -> ProcessRow {
    ProcessRow {
        pid,
        name: name.to_string(),
        cpu_usage_bits: cpu.to_bits(),
        memory,
        read_bytes: read,
        written_bytes: written,
    }
}

fn sample() -> Vec<ProcessRow> {
    vec![
        row(40, "explorer.exe", 1.5, 300, 10, 0),
        row(7, "Code.exe", 12.0, 900, 0, 5),
        row(1200, "CODE.EXE", 0.0, 300, 7, 7),
        row(4, "System", -0.0, 20, 4, 6),
        row(88, "cargo", 99.25, 20, 0, 0),
    ]
}

fn shown(query: &str, column: SortColumn, ascending: bool) -> Vec<usize> {
    visible_rows(&sample(), query, column, ascending).unwrap()
}

#[test]
fn rows_are_sorted_by_pid() {
    assert_eq!(shown("", SortColumn::Pid, true), vec![3, 1, 0, 4, 2]);
    assert_eq!(shown("", SortColumn::Pid, false), vec![2, 4, 0, 1, 3]);
}

#[test]
fn names_are_sorted_without_regard_to_case() {
    // "cargo" < "code.exe" = "code.exe" < "explorer.exe" < "system"
    assert_eq!(shown("", SortColumn::Name, true), vec![4, 1, 2, 0, 3]);
    assert_eq!(shown("", SortColumn::Name, false), vec![3, 0, 1, 2, 4]);
}

#[test]
fn usage_is_sorted_as_numbers_and_zeros_are_equal() {
    assert_eq!(shown("", SortColumn::Cpu, true), vec![2, 3, 0, 1, 4]);
    assert_eq!(shown("", SortColumn::Cpu, false), vec![4, 1, 0, 2, 3]);
}

#[test]
fn rows_with_the_same_memory_keep_their_order() {
    assert_eq!(shown("", SortColumn::Ram, true), vec![3, 4, 0, 2, 1]);
    assert_eq!(shown("", SortColumn::Ram, false), vec![1, 0, 2, 3, 4]);
}

#[test]
fn disk_traffic_counts_both_ways() {
    assert_eq!(shown("", SortColumn::Disk, true), vec![4, 1, 0, 3, 2]);
    assert_eq!(shown("", SortColumn::Disk, false), vec![2, 0, 3, 1, 4]);
}

#[test]
fn search_ignores_case_on_both_sides() {
    assert_eq!(shown("cOdE", SortColumn::Pid, true), vec![1, 2]);
    assert_eq!(shown("EXE", SortColumn::Pid, false), vec![2, 0, 1]);
    assert_eq!(shown("code.exe.", SortColumn::Pid, true), Vec::<usize>::new());
}

#[test]
fn search_ignores_case_beyond_ascii() {
    let rows = vec![row(1, "ÄPFEL", 0.0, 0, 0, 0), row(2, "apfel", 0.0, 0, 0, 0)];
    assert_eq!(visible_rows(&rows, "äpf", SortColumn::Pid, true), Some(vec![0]));
    assert_eq!(visible_rows(&rows, "Äpf", SortColumn::Pid, true), Some(vec![0]));
    assert_eq!(visible_rows(&rows, "", SortColumn::Name, true), Some(vec![1, 0]));
}

#[test]
fn the_listing_is_empty_without_rows() {
    assert_eq!(visible_rows(&Vec::new(), "", SortColumn::Name, true), Some(Vec::new()));
}

#[test]
fn overflowing_disk_traffic_cannot_be_sorted_by() {
    let rows = vec![
        row(1, "a", 0.0, 0, u64::MAX, 1),
        row(2, "b", 0.0, 0, 1, 1),
        row(3, "b", 0.0, 0, u64::MAX, 0),
    ];
    assert_eq!(visible_rows(&rows, "", SortColumn::Disk, true), None);
    // Another column does not add up the traffic, and neither does a listing that
    // does not show the row or has nothing to compare it with.
    assert_eq!(visible_rows(&rows, "", SortColumn::Ram, true), Some(vec![0, 1, 2]));
    assert_eq!(visible_rows(&rows, "b", SortColumn::Disk, false), Some(vec![2, 1]));
    assert_eq!(visible_rows(&rows, "a", SortColumn::Disk, true), Some(vec![0]));
}

#[test]
fn a_usage_that_is_no_number_loses_no_row() {
    let rows = vec![
        row(1, "a", f32::NAN, 0, 0, 0),
        row(2, "b", 3.0, 0, 0, 0),
        row(3, "c", 1.0, 0, 0, 0),
    ];
    let mut listing = visible_rows(&rows, "", SortColumn::Cpu, true).unwrap();
    listing.sort();
    assert_eq!(listing, vec![0, 1, 2]);
}

#[test]
fn long_listings_are_sorted_stably() {
    let rows: Vec<ProcessRow> =
        (0..500usize).map(|i| row(i, "p", 0.0, ((i * 37) % 11) as u64, 0, 0)).collect();
    let listing = visible_rows(&rows, "", SortColumn::Ram, false).unwrap();
    let mut expected: Vec<usize> = (0..500).collect();
    expected.sort_by(|a, b| rows[*a].memory.cmp(&rows[*b].memory).reverse());
    assert_eq!(listing, expected);
}

#[test]
fn turning_the_direction_turns_different_rows_round() {
    let up = shown("", SortColumn::Pid, true);
    let mut down = shown("", SortColumn::Pid, false);
    down.reverse();
    assert_eq!(up, down);
}

fn key(lower_name: &str, memory: u64) -> RowKey {
    RowKey {
        pid: 0,
        lower_name: lower_name.to_string(),
        cpu_usage_bits: 0,
        memory,
        read_bytes: 0,
        written_bytes: 0,
    }
}

#[test]
fn keys_are_searched_and_sorted_as_they_are() {
    let keys = vec![key("zeta", 1), key("eta", 2), key("Eta", 3), key("et", 4)];
    assert_eq!(search(&keys, "eta"), vec![0, 1]);
    assert_eq!(search(&keys, ""), vec![0, 1, 2, 3]);
    assert_eq!(search(&keys, "et"), vec![0, 1, 3]);
    assert_eq!(sorted_listing(&keys, "", SortColumn::Name, true), Some(vec![2, 3, 1, 0]));
    assert_eq!(sorted_listing(&keys, "et", SortColumn::Ram, false), Some(vec![3, 1, 0]));
}

#[test]
fn key_comparison_goes_by_the_column() {
    let (a, b) = (key("a", 9), key("b", 3));
    assert!(a.is_less(&b, SortColumn::Name) && !b.is_less(&a, SortColumn::Name));
    assert!(b.is_less(&a, SortColumn::Ram) && !a.is_less(&b, SortColumn::Ram));
    assert!(a.is_above(&b, SortColumn::Ram, false) && !a.is_above(&b, SortColumn::Ram, true));
    assert!(!a.is_less(&b, SortColumn::Pid) && !b.is_less(&a, SortColumn::Pid));
    assert!(a.is_match("a") && !a.is_match("b"));
}

#[test]
fn singles_are_ordered_by_their_bits() {
    let values = [
        f32::NEG_INFINITY, -2.5, -1.0, -1.0e-40, -0.0, 0.0, 1.0e-40, 0.5, 1.0, 100.0, f32::MAX,
        f32::INFINITY, f32::NAN, -f32::NAN,
    ];
    for left in values {
        for right in values {
            assert_eq!(is_single_less(left.to_bits(), right.to_bits()), left < right);
        }
    }
}

#[test]
fn cells_are_worded() {
    let texts = row(1234, "x", 0.0, 5 * 1024 * 1024 + 1, 2047, 10 * 1024).row_texts();
    assert_eq!(texts.pid, "1234");
    assert_eq!(texts.ram, "5");
    assert_eq!(texts.disk, "1K / 10K");
}

#[test]
fn headings_are_worded() {
    assert_eq!(process_heading(0), "Exuberant Optimizer (0 processes)");
    assert_eq!(process_heading(217), "Exuberant Optimizer (217 processes)");
    assert_eq!(cpu_heading(Some("Ryzen"), 16), "CPU: Ryzen | Threads 16");
    assert_eq!(cpu_heading(None, 0), "CPU: Unknown CPU | Threads 0");
}

#[test]
fn numbers_are_written_as_std_writes_them() {
    for number in [0u64, 7, 10, 99, 100, 4096, 65535, 123456789, u64::MAX] {
        let mut text = String::from("n=");
        append_decimal(&mut text, number);
        assert_eq!(text, format!("n={}", number));
        let mut text = String::new();
        append_hex(&mut text, number);
        assert_eq!(text, format!("{:#X}", number));
    }
}
