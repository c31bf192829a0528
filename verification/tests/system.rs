use exuberant_optimizer::affinity::{cores_of_threads, get_physical_core_mask};
use exuberant_optimizer::control::{boost_process, set_process_affinity, system_pid, ProcessStep};
use exuberant_optimizer::memory::{
    bytes_to_mb, get_standby_list_mb, is_purge_due, memory_summary, privilege_warning,
    purge_standby_list, standby_or_zero, true_free_mb, SystemMemoryListInformation,
};
use exuberant_optimizer::timer::{
    get_timer_resolution, set_timer_resolution, timer_lines, ResolutionTexts,
};

const ACCESS_DENIED: i32 = 0xC0000022u32 as i32;
const MB: u64 = 1024 * 1024;

fn pairs(threads: usize) -> Vec<usize> {
    (0..threads).map(|thread| thread / 2).collect()
}

#[test]
fn core_mask_selects_the_even_threads_of_pairs() {
    assert_eq!(get_physical_core_mask(&pairs(0)), 0);
    assert_eq!(get_physical_core_mask(&pairs(1)), 0b1);
    assert_eq!(get_physical_core_mask(&pairs(2)), 0b1);
    assert_eq!(get_physical_core_mask(&pairs(3)), 0b101);
    assert_eq!(get_physical_core_mask(&pairs(8)), 0b0101_0101);
    assert_eq!(get_physical_core_mask(&pairs(16)), 0x5555);
    for threads in 0..=usize::BITS as usize {
        let mask = get_physical_core_mask(&pairs(threads));
        assert_eq!(mask.count_ones() as usize, (threads + 1) / 2);
        assert_eq!(mask & (mask << 1), 0);
    }
}

#[test]
fn core_mask_selects_every_core_without_shared_cores() {
    assert_eq!(get_physical_core_mask(&vec![0, 1, 2, 3]), 0b1111);
    let all: Vec<usize> = (0..usize::BITS as usize).collect();
    assert_eq!(get_physical_core_mask(&all), usize::MAX);
}

#[test]
fn core_mask_follows_the_layout() {
    // Two cores of two threads, then two of one.
    assert_eq!(get_physical_core_mask(&vec![0, 0, 1, 1, 2, 3]), 0b11_0101);
    // Threads of one core need not stand next to each other.
    assert_eq!(get_physical_core_mask(&vec![5, 9, 5, 9]), 0b0011);
    assert_eq!(get_physical_core_mask(&vec![7, 7, 7, 7]), 0b0001);
}

#[test]
fn threads_are_assigned_to_the_cores_that_have_them() {
    assert_eq!(cores_of_threads(&vec![0b0011, 0b1100], 4), vec![0, 0, 1, 1]);
    assert_eq!(cores_of_threads(&vec![0b1010, 0b0101], 4), vec![1, 0, 1, 0]);
    assert_eq!(cores_of_threads(&vec![0b0001, 0b0010, 0b0100, 0b1000], 4), vec![0, 1, 2, 3]);
    // A thread that no core has counts as a core of its own.
    assert_eq!(cores_of_threads(&vec![0b0011], 4), vec![0, 0, 3, 4]);
    assert_eq!(cores_of_threads(&Vec::new(), 2), vec![0, 1]);
    let core_of = cores_of_threads(&vec![0b0011, 0b1100, 0b1_0000], 5);
    assert_eq!(get_physical_core_mask(&core_of), 0b1_0101);
}

#[test]
fn standby_list_is_the_sum_of_all_priorities() {
    let mut info = SystemMemoryListInformation::default();
    assert_eq!(get_standby_list_mb(0, &info), Ok(0));
    info.page_count_by_priority = [1, 2, 3, 4, 5, 6, 7, 228];
    info.free_page_count = 1_000_000;
    info.repurposed_pages_by_priority = [9; 8];
    assert!(info.is_countable());
    assert_eq!(get_standby_list_mb(0, &info), Ok(1));
    info.page_count_by_priority = [255, 0, 0, 0, 0, 0, 0, 0];
    assert_eq!(get_standby_list_mb(1, &info), Ok(0));
    info.page_count_by_priority = [262_144, 0, 0, 0, 0, 0, 0, 262_144];
    assert_eq!(get_standby_list_mb(i32::MAX, &info), Ok(2048));
}

#[test]
fn standby_list_query_can_fail() {
    let info = SystemMemoryListInformation::default();
    assert_eq!(
        get_standby_list_mb(ACCESS_DENIED, &info),
        Err("NtQuerySystemInformation failed: 0xC0000022".to_string())
    );
    assert_eq!(
        get_standby_list_mb(-1, &info),
        Err("NtQuerySystemInformation failed: 0xFFFFFFFF".to_string())
    );
}

#[test]
fn overflowing_page_counts_are_not_countable() {
    let mut info = SystemMemoryListInformation::default();
    info.page_count_by_priority = [usize::MAX, 1, 0, 0, 0, 0, 0, 0];
    assert!(!info.is_countable());
    info.page_count_by_priority = [usize::MAX; 8];
    assert!(!info.is_countable());
    info.page_count_by_priority = [1_000_000; 8];
    assert!(info.is_countable());
}

#[test]
fn purge_answers_by_status() {
    assert_eq!(purge_standby_list(0), Ok(()));
    assert_eq!(purge_standby_list(0x103), Ok(()));
    assert_eq!(
        purge_standby_list(ACCESS_DENIED),
        Err("NtSetSystemInformation failed with NTSTATUS code : 0xC0000022".to_string())
    );
    assert_eq!(
        purge_standby_list(i32::MIN),
        Err(format!("NtSetSystemInformation failed with NTSTATUS code : {:#X}", i32::MIN))
    );
}

#[test]
fn different_failures_are_worded_differently() {
    assert_ne!(purge_standby_list(-1), purge_standby_list(-2));
}

#[test]
fn timer_query_answers_by_status() {
    assert_eq!(get_timer_resolution(0, 156_250, 5_000, 10_000), Ok((5_000, 156_250, 10_000)));
    assert_eq!(
        get_timer_resolution(ACCESS_DENIED, 1, 2, 3),
        Err("NtQueryTimerResolution failed with status: 0xC0000022".to_string())
    );
}

#[test]
fn timer_request_answers_by_status() {
    assert_eq!(set_timer_resolution(0, 5_000), Ok(5_000));
    assert_eq!(
        set_timer_resolution(-1073741790, 0),
        Err("NtSetTimerResolution failed: 0xC0000022".to_string())
    );
}

#[test]
fn timer_lines_are_worded() {
    let times = ResolutionTexts {
        max: "0.5000".to_string(),
        min: "15.6250".to_string(),
        current: "1.0000".to_string(),
    };
    assert_eq!(
        timer_lines(&Ok(times)),
        vec![
            "Maximum Resolution: 0.5000 ms".to_string(),
            "Minimum Resolution: 15.6250 ms".to_string(),
            "Current Resolution: 1.0000 ms".to_string(),
        ]
    );
    assert_eq!(
        timer_lines(&Err("gone".to_string())),
        vec!["Error fetching timer: gone".to_string()]
    );
}

#[test]
fn free_memory_is_what_standby_leaves() {
    assert_eq!(bytes_to_mb(MB - 1), 0);
    assert_eq!(bytes_to_mb(16 * 1024 * MB), 16384);
    assert_eq!(true_free_mb(100 * MB, 30), 70);
    assert_eq!(true_free_mb(100 * MB, 100), 0);
    assert_eq!(true_free_mb(100 * MB, 101), 0);
    assert_eq!(standby_or_zero(&Ok(12)), 12);
    assert_eq!(standby_or_zero(&Err("x".to_string())), 0);
}

#[test]
fn purge_needs_both_thresholds() {
    assert!(is_purge_due(2048 * MB, 1024, 1024, 1024));
    assert!(!is_purge_due(2047 * MB, 1023, 1024, 1024));
    assert!(!is_purge_due(2049 * MB, 1024, 1024, 1024));
    assert!(is_purge_due(0, 1024, 1024, 0));
}

#[test]
fn a_due_purge_stays_due() {
    assert!(is_purge_due(1500 * MB, 1200, 1024, 512));
    assert!(is_purge_due(1400 * MB, 1300, 1000, 600));
}

#[test]
fn memory_is_summed_up() {
    let summary = memory_summary(16 * 1024 * MB, 3000 * MB, &Ok(1000));
    assert_eq!(summary.total, "Total MB: 16384 MB");
    assert_eq!(summary.standby, "Standby List: 1000 MB");
    assert_eq!(summary.free, "Free MB: 2000 MB");
    assert_eq!(summary.warning, None);
    let summary = memory_summary(MB, MB, &Err("no".to_string()));
    assert_eq!(summary.standby, "Standby List: 0 MB");
    assert_eq!(summary.free, "Free MB: 1 MB");
    assert_eq!(summary.warning, Some("Error getting standby list: no".to_string()));
}

#[test]
fn missing_privilege_is_worded() {
    assert_eq!(
        privilege_warning("denied"),
        "Failed to enable privilege. Are you running as Admin? Error: denied"
    );
}

#[test]
fn boosting_takes_a_handle() {
    let steps = boost_process(42, true);
    assert_eq!(steps.len(), 3);
    assert!(matches!(steps[0], ProcessStep::SetHighPriority));
    assert!(matches!(steps[1], ProcessStep::CloseHandle));
    assert!(
        matches!(&steps[2], ProcessStep::Say { line } if line == "Process set high priority class to 42")
    );
    let steps = boost_process(42, false);
    assert_eq!(steps.len(), 1);
    assert!(
        matches!(&steps[0], ProcessStep::Complain { line } if line == "Failed to open PID: 42. Trying running as Admin.")
    );
}

#[test]
fn affinity_takes_a_handle() {
    let steps = set_process_affinity(7, 85, true);
    assert_eq!(steps.len(), 3);
    assert!(matches!(steps[0], ProcessStep::SetAffinity { mask: 85 }));
    assert!(matches!(steps[1], ProcessStep::CloseHandle));
    assert!(matches!(&steps[2], ProcessStep::Say { line } if line == "Set affinity mask 85 for PID: 7"));
    assert!(set_process_affinity(7, 85, false).is_empty());
}

#[test]
fn system_pid_keeps_the_low_bits() {
    assert_eq!(system_pid(0), 0);
    assert_eq!(system_pid(4321), 4321);
    assert_eq!(system_pid(usize::MAX), u32::MAX);
}
