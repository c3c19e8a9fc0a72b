use plugind::resources::{alarm_due, cpu_ticks, memory_in, total_ticks, CpuTracker};

#[test]
fn ticks_are_read() {
    let stat = "cpu  10 20 30 40 x 50\ncpu0 1 2 3 4\n";
    assert_eq!(cpu_ticks(stat), Some(vec![10, 20, 30, 40, 50]));
    assert_eq!(cpu_ticks("cpu 1 2 3\n"), None);
    assert_eq!(cpu_ticks(""), None);
    assert_eq!(cpu_ticks("\ncpu 1 2 3 4"), None);
    assert_eq!(total_ticks(&vec![10, 20, 30, 40, 50]), Some(150));
    assert_eq!(total_ticks(&vec![u64::MAX, 1]), None);
    assert_eq!(total_ticks(&vec![u64::MAX, 0]), Some(u64::MAX));
}

#[test]
fn ticks_are_counted_from_look_to_look() {
    let mut t = CpuTracker::new();
    assert_eq!(t.observe(40, 150), None);
    assert_eq!(t.observe(45, 250), Some((5, 100)));
    assert_eq!(t.observe(45, 250), None);
    assert_eq!(t.observe(10, 300), Some((0, 50)));
    assert_eq!(t.observe(20, 200), None);
    assert_eq!(t.last, Some((20, 200)));
}

#[test]
fn memory_is_read() {
    let table = "MemTotal:       16000 kB\nMemFree:  1 kB\nMemAvailable:    4000 kB\n";
    assert_eq!(memory_in(table), Some((16000, 4000)));
    assert_eq!(memory_in("MemTotal: 1 kB\n"), None);
    assert_eq!(memory_in("MemTotal: 1\nMemAvailable: x\n"), None);
    assert_eq!(memory_in("MemTotal: 1\nMemTotal: 2\nMemAvailable: 3\n"), Some((2, 3)));
}

#[test]
fn an_alarm_is_due_when_the_bound_is_passed() {
    assert!(alarm_due(true, None));
    assert!(alarm_due(true, Some(true)));
    assert!(!alarm_due(true, Some(false)));
    assert!(!alarm_due(false, None));
}
