use systemd_exporterd::cgroup::CGroup;
use systemd_exporterd::stats::{
    AccountingFlags, CPUStats, IOStats, IPStats, MemoryStats, ResourceStats, TaskStats, UnitStatus,
};
use systemd_exporterd::unit::{
    on_unit_event, parse_unit, unit_kind, ResourceRead, StatSource, Unit, UnitAction, UnitEvent,
    UnitKind, UnitTable,
};

fn status(active: &str, sub: &str) -> UnitStatus {
    UnitStatus { job_id: 0, active_state: active.into(), sub_state: sub.into(), active_ts: 0, inactive_ts: 0 }
}

fn flags(on: bool) -> AccountingFlags {
    AccountingFlags { cpu: on, io: on, ip: on, memory: on, tasks: on }
}

#[test]
fn kinds_by_suffix() {
    assert!(matches!(unit_kind("sshd.service"), UnitKind::Service));
    assert!(matches!(unit_kind("user.slice"), UnitKind::Slice));
    assert!(matches!(unit_kind("boot.mount"), UnitKind::Mount));
    assert!(matches!(unit_kind("dbus.socket"), UnitKind::Socket));
    assert!(matches!(unit_kind("session-1.scope"), UnitKind::Scope));
    assert!(matches!(unit_kind("network.target"), UnitKind::Other));
    assert!(matches!(unit_kind("service"), UnitKind::Other));
}

#[test]
fn new_unit_is_local_and_empty() {
    let u = Unit::new("a.service".into(), "system".into());
    assert_eq!(u.identifier, "a.service@localhost");
    assert_eq!(u.machine, "localhost");
    assert_eq!(u.scope, "system");
    assert!(!u.has_task_proxy && !u.has_resource_proxy && u.cgroup.is_none());
    assert!(u.status.active_state.is_empty());
}

#[test]
fn parse_sets_up_by_kind() {
    let s = parse_unit("a.service".into(), "system".into(), Some("/system.slice/a.service".into()));
    assert!(s.has_task_proxy && s.has_resource_proxy);
    assert_eq!(s.cgroup.unwrap().path(), "/sys/fs/cgroup/system.slice/a.service");
    let sl = parse_unit("-.slice".into(), "system".into(), Some("/".into()));
    assert!(!sl.has_task_proxy && sl.has_resource_proxy && sl.cgroup.is_none());
    let t = parse_unit("x.target".into(), "user@1000".into(), Some("/x".into()));
    assert!(!t.has_task_proxy && !t.has_resource_proxy && t.cgroup.is_none());
}

#[test]
fn running_unless_inactive_or_exited() {
    let mut u = Unit::new("a.service".into(), "system".into());
    u.update_unit_status(status("active", "running"), None);
    assert!(u.running());
    u.update_unit_status(status("inactive", "dead"), Some(flags(true)));
    assert!(!u.running());
    assert!(u.accounting.io);
    u.update_unit_status(status("active", "exited"), None);
    assert!(!u.running());
    assert!(u.accounting.io);
}

#[test]
fn task_stats_need_proxy_and_accounting() {
    let u = Unit::new("a.service".into(), "system".into()).with_task_proxy();
    assert!(!u.reads_task_stats());
    let mut u = u;
    u.update_unit_status(status("active", "running"), Some(flags(true)));
    assert!(u.reads_task_stats());
    assert!(!u.wants_accounting_flags());
    assert!(u.with_resource_proxy().wants_accounting_flags());
}

#[test]
fn collection_reads_enabled_kinds_in_order() {
    let mut u = Unit::new("a.service".into(), "system".into())
        .with_cgroup(CGroup::new("/a"))
        .with_resource_proxy();
    u.update_unit_status(status("active", "running"), Some(flags(true)));
    let mut c = u.begin_resource_collection();
    assert!(matches!(c.next, ResourceRead::Ip));
    c.ip_read(IPStats { egress_bytes: 1, ingress_bytes: 2, egress_packets: 3, ingress_packets: 4 });
    assert!(matches!(c.next, ResourceRead::Io(StatSource::CGroup)));
    c.cgroup_failed();
    assert!(matches!(c.next, ResourceRead::Io(StatSource::Bus)));
    c.io_read(IOStats { read_bytes: 5, write_bytes: 0, read_ops: 0, write_ops: 0 });
    assert!(matches!(c.next, ResourceRead::Cpu(StatSource::CGroup)));
    c.cpu_read(CPUStats { usage_nsec: 6 });
    assert!(matches!(c.next, ResourceRead::Memory(StatSource::CGroup)));
    c.memory_read(MemoryStats { current: 7, available: 0, peak: 0, swap: 0, swap_peak: 0 });
    assert!(matches!(c.next, ResourceRead::Done));
    assert_eq!(c.stats.io_stats.read_bytes, 5);
    assert_eq!(c.stats.cpu_stats.usage_nsec, 6);
    assert_eq!(c.stats.mem_stats.current, 7);
}

#[test]
fn collection_skips_what_is_off() {
    let mut u = Unit::new("a.socket".into(), "system".into()).with_resource_proxy();
    let mut f = flags(false);
    f.cpu = true;
    u.update_unit_status(status("active", "listening"), Some(f));
    let mut c = u.begin_resource_collection();
    assert!(matches!(c.next, ResourceRead::Cpu(StatSource::Bus)));
    c.cpu_read(CPUStats { usage_nsec: 1 });
    assert!(matches!(c.next, ResourceRead::Done));
    u.update_unit_status(status("inactive", "dead"), None);
    assert!(matches!(u.begin_resource_collection().next, ResourceRead::Done));
    let no_proxy = Unit::new("b.service".into(), "system".into());
    assert!(matches!(no_proxy.begin_resource_collection().next, ResourceRead::Done));
}

#[test]
fn unit_data_copies_identity_and_status() {
    let mut u = Unit::new("a.service".into(), "user@1000".into());
    u.update_unit_status(UnitStatus { job_id: 9, ..status("active", "running") }, None);
    let d = u.unit_data(ResourceStats::default(), TaskStats { count: 1, main_pid: 2, start_ts: 3, stop_ts: 4 });
    assert_eq!(d.name, "a.service");
    assert_eq!(d.scope, "user@1000");
    assert_eq!(d.status.job_id, 9);
    assert_eq!(d.task_stats.main_pid, 2);
}

#[test]
fn unit_events_update_the_table() {
    let mut t: UnitTable<u32> = UnitTable::new();
    assert!(matches!(on_unit_event(&mut t, UnitEvent::New, "a.service"), UnitAction::Load));
    t.insert("a.service".to_string(), 1);
    t.insert("b.service".to_string(), 2);
    t.insert("a.service".to_string(), 3);
    assert_eq!(t.len(), 2);
    assert_eq!(*t.unit_at(t.position("a.service").unwrap()), 3);
    match on_unit_event(&mut t, UnitEvent::JobNew, "b.service") {
        UnitAction::RefreshStatus(i) => {
            *t.unit_at_mut(i) += 10;
            assert_eq!(*t.unit_at(i), 12);
        }
        _ => panic!("a tracked unit is refreshed"),
    }
    assert!(matches!(on_unit_event(&mut t, UnitEvent::JobRemoved, "c.service"), UnitAction::Ignore));
    assert!(matches!(on_unit_event(&mut t, UnitEvent::Removed, "a.service"), UnitAction::Ignore));
    assert_eq!(t.len(), 1);
    assert!(t.position("a.service").is_none());
    on_unit_event(&mut t, UnitEvent::Removed, "zzz");
    assert_eq!(t.len(), 1);
}
