use systemd_exporterd::cgroup::{io_stat_is_valid, join, read_single_stat, CGroup, Monitor};

#[test]
fn new_prefixes_the_mount_and_spots_the_root() {
    let cg = CGroup::new("/system.slice/sshd.service");
    assert_eq!(cg.path(), "/sys/fs/cgroup/system.slice/sshd.service");
    assert!(!cg.is_root);
    let root = CGroup::new("/");
    assert!(root.is_root);
    assert_eq!(root.path(), "/sys/fs/cgroup/");
    assert!(CGroup::new("").is_root);
    assert!(CGroup::new("///").is_root);
    assert!(!CGroup::new("/a/").is_root);
}

#[test]
fn stat_files_join_like_path_join() {
    let cg = CGroup::new("/user.slice");
    assert_eq!(cg.stat_file("cpu.stat"), "/sys/fs/cgroup/user.slice/cpu.stat");
    let root = CGroup::new("/");
    assert_eq!(root.stat_file("io.stat"), "/sys/fs/cgroup/io.stat");
    assert_eq!(cg.stat_file("/abs"), "/abs");
    for (base, name) in [("/a", "b"), ("/a/", "b"), ("", "b"), ("/a", "/c"), ("/a", "")] {
        let want = std::path::Path::new(base).join(name);
        assert_eq!(join(base, name), want.to_str().unwrap(), "{base:?} + {name:?}");
    }
}

#[test]
fn cpu_stat_takes_the_first_usage_in_nanoseconds() {
    let cg = CGroup::new("/system.slice/a.service");
    let raw = "usage_usec 1234\nuser_usec 1000\nsystem_usec 234\n";
    assert_eq!(cg.read_cpu_stats(raw).usage_nsec, 1234000);
    assert_eq!(cg.read_cpu_stats("user_usec 5 usage_usec 99 usage_usec 7").usage_nsec, 99000);
    assert_eq!(cg.read_cpu_stats("user_usec 5\nusage_usec").usage_nsec, 0);
    assert_eq!(cg.read_cpu_stats("usage_usec abc").usage_nsec, 0);
    assert_eq!(cg.read_cpu_stats("x usage_usec usage_usec 5").usage_nsec, 0);
    assert_eq!(cg.read_cpu_stats("usage_nsec 1234").usage_nsec, 0);
    assert_eq!(cg.read_cpu_stats("").usage_nsec, 0);
}

#[test]
fn cpu_stat_saturates_at_the_largest_count() {
    let cg = CGroup::new("/a");
    assert_eq!(cg.read_cpu_stats("usage_usec 18446744073709551").usage_nsec, 18446744073709551000);
    assert_eq!(cg.read_cpu_stats("usage_usec 18446744073709552").usage_nsec, u64::MAX);
    assert_eq!(cg.read_cpu_stats("usage_usec 18446744073709551615").usage_nsec, u64::MAX);
}

#[test]
fn io_stat_adds_up_per_key() {
    let cg = CGroup::new("/a");
    let raw = "8:0 rbytes=100 wbytes=200 rios=3 wios=4 dbytes=0 dios=0\n8:16 rbytes=1 wbytes=2 rios=3 wios=4\n";
    assert!(io_stat_is_valid(raw));
    let s = cg.read_io_stats(raw);
    assert_eq!((s.read_bytes, s.write_bytes, s.read_ops, s.write_ops), (101, 202, 6, 8));
    let s = cg.read_io_stats("8:0 rbytes=x wbytes=5\n\n");
    assert_eq!((s.read_bytes, s.write_bytes, s.read_ops, s.write_ops), (0, 5, 0, 0));
    let s = cg.read_io_stats("");
    assert_eq!((s.read_bytes, s.write_bytes), (0, 0));
}

#[test]
fn io_stat_validity() {
    assert!(!io_stat_is_valid("8:0 rbytes"));
    assert!(io_stat_is_valid("lonely-device\n"));
    assert!(!io_stat_is_valid("8:0 rbytes=18446744073709551615\n8:1 rbytes=1"));
    assert!(io_stat_is_valid("8:0 rbytes=18446744073709551615\n8:1 wbytes=1"));
}

#[test]
fn single_stats_and_memory() {
    assert_eq!(read_single_stat(" 42\n"), 42);
    assert_eq!(read_single_stat("max\n"), 0);
    let cg = CGroup::new("/a");
    let m = cg.read_memory_stats("10\n", "20\n", "0\n", "x\n");
    assert_eq!((m.current, m.available, m.peak, m.swap, m.swap_peak), (10, 0, 20, 0, 0));
    let t = cg.read_task_stats("7\n");
    assert_eq!((t.count, t.main_pid, t.start_ts, t.stop_ts), (7, 0, 0, 0));
}

#[test]
fn monitor_lists_the_cgroup_mount() {
    let m = Monitor { path: "/somewhere".to_string() };
    assert_eq!(m.get_stats(), "/sys/fs/cgroup");
}
