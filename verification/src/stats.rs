use vstd::prelude::*;

verus! {

/// Block I/O totals of a unit.
pub struct IOStats {
    pub read_bytes: u64,
    pub write_bytes: u64,
    pub read_ops: u64,
    pub write_ops: u64,
}

/// Network totals of a unit.
pub struct IPStats {
    pub egress_bytes: u64,
    pub ingress_bytes: u64,
    pub egress_packets: u64,
    pub ingress_packets: u64,
}

/// CPU time used by a unit.
pub struct CPUStats {
    pub usage_nsec: u64,
}

/// Memory use of a unit.
pub struct MemoryStats {
    pub current: u64,
    pub available: u64,
    pub peak: u64,
    pub swap: u64,
    pub swap_peak: u64,
}

/// Task figures of a unit.
pub struct TaskStats {
    pub count: u64,
    pub main_pid: u32,
    pub start_ts: u64,
    pub stop_ts: u64,
}

/// State of a unit as systemd reports it.
pub struct UnitStatus {
    pub job_id: u32,
    pub active_state: String,
    pub sub_state: String,
    pub active_ts: u64,
    pub inactive_ts: u64,
}

/// Which kinds of accounting systemd has enabled for a unit.
pub struct AccountingFlags {
    pub cpu: bool,
    pub io: bool,
    pub ip: bool,
    pub memory: bool,
    pub tasks: bool,
}

/// All resource figures of a unit.
pub struct ResourceStats {
    pub ip_stats: IPStats,
    pub io_stats: IOStats,
    pub cpu_stats: CPUStats,
    pub mem_stats: MemoryStats,
}

/// What one scrape learns of one unit.
pub struct UnitData {
    pub name: String,
    pub machine: String,
    pub scope: String,
    pub status: UnitStatus,
    pub resource_stats: ResourceStats,
    pub task_stats: TaskStats,
}

impl IOStats {
    pub open spec fn is_zero(&self) -> bool {
        self.read_bytes == 0 && self.write_bytes == 0 && self.read_ops == 0 && self.write_ops == 0
    }
}

impl IPStats {
    pub open spec fn is_zero(&self) -> bool {
        self.egress_bytes == 0 && self.ingress_bytes == 0 && self.egress_packets == 0
            && self.ingress_packets == 0
    }
}

impl CPUStats {
    pub open spec fn is_zero(&self) -> bool {
        self.usage_nsec == 0
    }
}

impl MemoryStats {
    pub open spec fn is_zero(&self) -> bool {
        self.current == 0 && self.available == 0 && self.peak == 0 && self.swap == 0
            && self.swap_peak == 0
    }
}

impl TaskStats {
    pub open spec fn is_zero(&self) -> bool {
        self.count == 0 && self.main_pid == 0 && self.start_ts == 0 && self.stop_ts == 0
    }
}

impl ResourceStats {
    pub open spec fn is_zero(&self) -> bool {
        self.ip_stats.is_zero() && self.io_stats.is_zero() && self.cpu_stats.is_zero()
            && self.mem_stats.is_zero()
    }
}

impl Default for IOStats {
    fn default() -> (r: Self)
        ensures
            r.is_zero(),
    {
        IOStats { read_bytes: 0, write_bytes: 0, read_ops: 0, write_ops: 0 }
    }
}

impl Default for IPStats {
    fn default() -> (r: Self)
        ensures
            r.is_zero(),
    {
        IPStats { egress_bytes: 0, ingress_bytes: 0, egress_packets: 0, ingress_packets: 0 }
    }
}

impl Default for CPUStats {
    fn default() -> (r: Self)
        ensures
            r.is_zero(),
    {
        CPUStats { usage_nsec: 0 }
    }
}

impl Default for MemoryStats {
    fn default() -> (r: Self)
        ensures
            r.is_zero(),
    {
        MemoryStats { current: 0, available: 0, peak: 0, swap: 0, swap_peak: 0 }
    }
}

impl Default for TaskStats {
    fn default() -> (r: Self)
        ensures
            r.is_zero(),
    {
        TaskStats { count: 0, main_pid: 0, start_ts: 0, stop_ts: 0 }
    }
}

impl Default for ResourceStats {
    fn default() -> (r: Self)
        ensures
            r.is_zero(),
    {
        ResourceStats {
            ip_stats: IPStats::default(),
            io_stats: IOStats::default(),
            cpu_stats: CPUStats::default(),
            mem_stats: MemoryStats::default(),
        }
    }
}

impl Default for UnitStatus {
    fn default() -> (r: Self)
        ensures
            r.job_id == 0,
            r.active_state@ == Seq::<char>::empty(),
            r.sub_state@ == Seq::<char>::empty(),
            r.active_ts == 0,
            r.inactive_ts == 0,
    {
        UnitStatus {
            job_id: 0,
            active_state: String::new(),
            sub_state: String::new(),
            active_ts: 0,
            inactive_ts: 0,
        }
    }
}

impl Default for AccountingFlags {
    fn default() -> (r: Self)
        ensures
            !r.cpu && !r.io && !r.ip && !r.memory && !r.tasks,
    {
        AccountingFlags { cpu: false, io: false, ip: false, memory: false, tasks: false }
    }
}

impl Clone for UnitStatus {
    fn clone(&self) -> (r: Self)
        ensures
            r.job_id == self.job_id,
            r.active_state@ == self.active_state@,
            r.sub_state@ == self.sub_state@,
            r.active_ts == self.active_ts,
            r.inactive_ts == self.inactive_ts,
    {
        UnitStatus {
            job_id: self.job_id,
            active_state: self.active_state.clone(),
            sub_state: self.sub_state.clone(),
            active_ts: self.active_ts,
            inactive_ts: self.inactive_ts,
        }
    }
}

impl Clone for AccountingFlags {
    fn clone(&self) -> (r: Self)
        ensures
            r == *self,
    {
        AccountingFlags {
            cpu: self.cpu,
            io: self.io,
            ip: self.ip,
            memory: self.memory,
            tasks: self.tasks,
        }
    }
}

} // verus!
