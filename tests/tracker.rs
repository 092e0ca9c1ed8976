use memchurn::tracker::{SystemMemoryStats, Tracker};

#[test]
fn add_and_remove_update_counters() {
    let mut t = Tracker::new();
    t.add_alloc(100);
    t.add_alloc(20);
    t.remove_alloc(100);
    t.add_alloc(30);
    let s = t.get_stats();
    assert_eq!(s.peak_size_allocated, 120);
    assert_eq!(s.total_size_allocated, 150);
    assert_eq!(s.total_number_of_allocations, 3);
    assert_eq!(s.current_size_allocated, 50);
    assert_eq!(s.current_number_of_allocations, 2);
    assert_eq!(s.freed_allocation_size, 100);
}

#[test]
fn remove_saturates_at_zero() {
    let mut t = Tracker::new();
    t.remove_alloc(10);
    assert_eq!(t.current_size_allocated, 0);
    assert_eq!(t.current_number_of_allocations, 0);
    assert_eq!(t.freed_allocation_size, 10);
}

#[test]
fn add_saturates_at_max() {
    let mut t = Tracker::new();
    t.add_alloc(usize::MAX);
    t.add_alloc(5);
    assert_eq!(t.current_size_allocated, usize::MAX);
    assert_eq!(t.total_size_allocated, usize::MAX);
    assert_eq!(t.peak_size_allocated, usize::MAX);
}

#[test]
fn init_resets_counters() {
    let mut t = Tracker::new();
    t.add_alloc(7);
    t.init();
    let s = t.get_stats();
    assert_eq!(s.total_size_allocated, 0);
    assert_eq!(s.peak_size_allocated, 0);
    assert_eq!(s.current_number_of_allocations, 0);
}

#[test]
fn byte_figures_and_overhead() {
    let mut stats = SystemMemoryStats::zeroed();
    stats.vm_rss = 4;
    stats.vm_size = 10;
    stats.vm_peak = 12;
    stats.vm_hwm = 5;
    assert_eq!(stats.vm_rss_bytes(), 4096);
    assert_eq!(stats.vm_size_bytes(), 10240);
    assert_eq!(stats.vm_peak_bytes(), 12288);
    assert_eq!(stats.vm_hwm_bytes(), 5120);
    let mut t = Tracker::new();
    t.set_system_stats(stats);
    t.add_alloc(1000);
    assert_eq!(t.memory_overhead_bytes(), 3096);
    t.add_alloc(5000);
    assert_eq!(t.memory_overhead_bytes(), 0);
}

#[test]
fn kb_values_parse_leading_number() {
    assert_eq!(SystemMemoryStats::parse_kb_value("   1234 kB"), 1234);
    assert_eq!(SystemMemoryStats::parse_kb_value("\t88"), 88);
    assert_eq!(SystemMemoryStats::parse_kb_value("+5 kB"), 5);
    assert_eq!(SystemMemoryStats::parse_kb_value(""), 0);
    assert_eq!(SystemMemoryStats::parse_kb_value("  kB"), 0);
    assert_eq!(SystemMemoryStats::parse_kb_value("-3 kB"), 0);
    assert_eq!(SystemMemoryStats::parse_kb_value("12a kB"), 0);
    assert_eq!(SystemMemoryStats::parse_kb_value("18446744073709551615"), usize::MAX);
    assert_eq!(SystemMemoryStats::parse_kb_value("18446744073709551616"), 0);
}

#[test]
fn status_lines_set_named_figures() {
    let text = "Name:\tcat\nVmPeak:\t   10000 kB\nVmSize:\t    9000 kB\nVmHWM:\t     800 kB\nVmRSS:\t     700 kB\nVmData:\t     300 kB\nVmStk:\t     132 kB\nVmExe:\t      20 kB\nVmLib:\t    1500 kB\nThreads:\t1\nno colon here\n";
    let mut stats = SystemMemoryStats::zeroed();
    for line in text.lines() {
        stats.apply_status_line(line);
    }
    assert_eq!(stats.vm_peak, 10000);
    assert_eq!(stats.vm_size, 9000);
    assert_eq!(stats.vm_hwm, 800);
    assert_eq!(stats.vm_rss, 700);
    assert_eq!(stats.vm_data, 300);
    assert_eq!(stats.vm_stk, 132);
    assert_eq!(stats.vm_exe, 20);
    assert_eq!(stats.vm_lib, 1500);
}

#[test]
fn status_keys_are_trimmed_and_exact() {
    let mut stats = SystemMemoryStats::zeroed();
    stats.apply_status_line("  VmRSS  : 42 kB");
    assert_eq!(stats.vm_rss, 42);
    stats.apply_status_line("VmRSSx: 7 kB");
    stats.apply_status_line("vmrss: 7 kB");
    assert_eq!(stats.vm_rss, 42);
    stats.apply_status_line("VmRSS: junk");
    assert_eq!(stats.vm_rss, 0);
}
