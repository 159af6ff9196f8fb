use vstd::prelude::*;

use crate::cgroup::{only_slashes, CGroup};
use crate::stats::{
    AccountingFlags, CPUStats, IOStats, IPStats, MemoryStats, ResourceStats, TaskStats, UnitData,
    UnitStatus,
};
use crate::service::{
    lemma_index_of_contains, lemma_index_of_unique, lemma_push_no_duplicates,
    lemma_remove_no_duplicates,
};
use crate::text::{ends_with, has_suffix, str_eq};

verus! {

/// The kinds of unit whose proxies the exporter reads figures from.
pub enum UnitKind {
    Service,
    Slice,
    Mount,
    Socket,
    Scope,
    Other,
}

/// The kind of a unit, by the suffix of its name.
pub open spec fn kind_of(name: Seq<char>) -> UnitKind {
    if has_suffix(name, ".service"@) {
        UnitKind::Service
    } else if has_suffix(name, ".slice"@) {
        UnitKind::Slice
    } else if has_suffix(name, ".mount"@) {
        UnitKind::Mount
    } else if has_suffix(name, ".socket"@) {
        UnitKind::Socket
    } else if has_suffix(name, ".scope"@) {
        UnitKind::Scope
    } else {
        UnitKind::Other
    }
}

/// The kind of the unit named `name`.
pub fn unit_kind(name: &str) -> (r: UnitKind)
    ensures
        r == kind_of(name@),
        name@.len() >= 8 && name@.subrange(name@.len() - 8, name@.len() as int) == ".service"@
            ==> r is Service,
{
    proof {
        if name@.len() >= 8 && name@.subrange(name@.len() - 8, name@.len() as int) == ".service"@ {
            lemma_every_service_name_is_a_service(name@);
        }
    }
    if ends_with(name, ".service") {
        UnitKind::Service
    } else if ends_with(name, ".slice") {
        UnitKind::Slice
    } else if ends_with(name, ".mount") {
        UnitKind::Mount
    } else if ends_with(name, ".socket") {
        UnitKind::Socket
    } else if ends_with(name, ".scope") {
        UnitKind::Scope
    } else {
        UnitKind::Other
    }
}

impl UnitKind {
    /// Whether units of this kind have a cgroup and resource figures.
    pub fn has_resources(&self) -> (r: bool)
        ensures
            r == !(*self is Other),
    {
        match self {
            UnitKind::Other => false,
            _ => true,
        }
    }

    /// Whether units of this kind have task figures.
    pub fn has_tasks(&self) -> (r: bool)
        ensures
            r == (*self is Service),
    {
        match self {
            UnitKind::Service => true,
            _ => false,
        }
    }
}

/// A systemd unit that the exporter follows. The D-Bus proxies for it are
/// kept by the caller; the flags say which of them the unit has.
pub struct Unit {
    pub name: String,
    pub machine: String,
    pub scope: String,
    pub identifier: String,
    pub status: UnitStatus,
    pub accounting: AccountingFlags,
    pub has_task_proxy: bool,
    pub has_resource_proxy: bool,
    pub cgroup: Option<CGroup>,
}

/// The accounting flags of a new unit: all off.
pub open spec fn no_accounting(f: AccountingFlags) -> bool {
    !f.cpu && !f.io && !f.ip && !f.memory && !f.tasks
}

/// The status of a new unit: empty.
pub open spec fn empty_status(s: UnitStatus) -> bool {
    s.job_id == 0 && s.active_state@.len() == 0 && s.sub_state@.len() == 0 && s.active_ts == 0
        && s.inactive_ts == 0
}

/// The machine that units are reported for.
pub open spec fn local_machine() -> Seq<char> {
    "localhost"@
}

impl Unit {
    /// A unit named `name` of the manager labelled `scope`, on the local
    /// machine, identified as `name@localhost`, with an empty status, no
    /// accounting, no proxies and no cgroup.
    pub fn new(name: String, scope: String) -> (r: Self)
        ensures
            r.name@ == name@,
            r.scope@ == scope@,
            r.machine@ == local_machine(),
            r.identifier@ == name@ + "@"@ + local_machine(),
            empty_status(r.status),
            no_accounting(r.accounting),
            !r.has_task_proxy,
            !r.has_resource_proxy,
            r.cgroup is None,
    {
        let mut id = name.clone();
        id.append("@");
        id.append("localhost");
        Unit {
            name,
            machine: String::from_str("localhost"),
            scope,
            identifier: id,
            status: UnitStatus::default(),
            accounting: AccountingFlags::default(),
            has_task_proxy: false,
            has_resource_proxy: false,
            cgroup: None,
        }
    }

    /// The unit with a proxy for resource figures.
    pub fn with_resource_proxy(self) -> (r: Self)
        ensures
            r == (Unit { has_resource_proxy: true, ..self }),
    {
        let mut u = self;
        u.has_resource_proxy = true;
        u
    }

    /// The unit with a proxy for task figures.
    pub fn with_task_proxy(self) -> (r: Self)
        ensures
            r == (Unit { has_task_proxy: true, ..self }),
    {
        let mut u = self;
        u.has_task_proxy = true;
        u
    }

    /// The unit with `cgroup` as its cgroup, unless that is the root of the
    /// hierarchy, which is never used.
    pub fn with_cgroup(self, cgroup: CGroup) -> (r: Self)
        ensures
            !cgroup.is_root ==> r == (Unit { cgroup: Some(cgroup), ..self }),
            cgroup.is_root ==> r == self,
    {
        let mut u = self;
        if !cgroup.is_root {
            u.cgroup = Some(cgroup);
        }
        u
    }

    /// Whether the unit runs: not when it is `inactive` or has `exited`.
    pub open spec fn is_running(&self) -> bool {
        !(self.status.active_state@ == "inactive"@ || self.status.sub_state@ == "exited"@)
    }

    /// Whether the unit runs.
    pub fn running(&self) -> (r: bool)
        ensures
            r == self.is_running(),
            r <==> (self.status.active_state@ != "inactive"@ && self.status.sub_state@ != "exited"@),
    {
        !(str_eq(self.status.active_state.as_str(), "inactive") || str_eq(
            self.status.sub_state.as_str(),
            "exited",
        ))
    }

    /// Whether the accounting flags are to be read along with the status:
    /// only where the unit has a resource proxy.
    pub fn wants_accounting_flags(&self) -> (r: bool)
        ensures
            r == self.has_resource_proxy,
    {
        self.has_resource_proxy
    }

    /// Takes a freshly read status, and the accounting flags where they were
    /// read; where they were not (or reading them failed) the previous flags
    /// stay.
    pub fn update_unit_status(&mut self, status: UnitStatus, flags: Option<AccountingFlags>)
        ensures
            final(self).status == status,
            final(self).accounting == match flags {
                Some(f) => f,
                None => old(self).accounting,
            },
            final(self).name == old(self).name,
            final(self).machine == old(self).machine,
            final(self).scope == old(self).scope,
            final(self).identifier == old(self).identifier,
            final(self).has_task_proxy == old(self).has_task_proxy,
            final(self).has_resource_proxy == old(self).has_resource_proxy,
            final(self).cgroup == old(self).cgroup,
    {
        self.status = status;
        if let Some(f) = flags {
            self.accounting = f;
        }
    }

    /// Whether task figures are read from the unit's proxy: only where it has
    /// a task proxy and task accounting is on; otherwise they are all 0.
    pub fn reads_task_stats(&self) -> (r: bool)
        ensures
            r == (self.has_task_proxy && self.accounting.tasks),
    {
        self.has_task_proxy && self.accounting.tasks
    }

    /// What a scrape reports of this unit, given the figures collected.
    pub fn unit_data(&self, resource_stats: ResourceStats, task_stats: TaskStats) -> (r: UnitData)
        ensures
            r.name@ == self.name@,
            r.machine@ == self.machine@,
            r.scope@ == self.scope@,
            r.status.job_id == self.status.job_id,
            r.status.active_state@ == self.status.active_state@,
            r.status.sub_state@ == self.status.sub_state@,
            r.status.active_ts == self.status.active_ts,
            r.status.inactive_ts == self.status.inactive_ts,
            r.resource_stats == resource_stats,
            r.task_stats == task_stats,
    {
        UnitData {
            name: self.name.clone(),
            machine: self.machine.clone(),
            scope: self.scope.clone(),
            status: self.status.clone(),
            resource_stats,
            task_stats,
        }
    }
}

/// The unit named `name` of the manager labelled `scope`, set up by its kind:
/// a service gets its cgroup, a task proxy and a resource proxy; a slice,
/// mount, socket or scope gets its cgroup and a resource proxy; any other unit
/// gets neither. `control_group` is the cgroup path that the unit's proxy
/// reports (read only for the kinds that have one).
pub fn parse_unit(name: String, scope: String, control_group: Option<String>) -> (r: Unit)
    ensures
        r.name@ == name@,
        r.scope@ == scope@,
        r.machine@ == local_machine(),
        r.identifier@ == name@ + "@"@ + local_machine(),
        empty_status(r.status),
        no_accounting(r.accounting),
        r.has_task_proxy == (kind_of(name@) is Service),
        r.has_resource_proxy == !(kind_of(name@) is Other),
        name@.len() >= 8 && name@.subrange(name@.len() - 8, name@.len() as int) == ".service"@
            ==> r.has_task_proxy && r.has_resource_proxy,
        match (kind_of(name@), control_group) {
            (UnitKind::Other, _) => r.cgroup is None,
            (_, None) => r.cgroup is None,
            (_, Some(p)) => if only_slashes(p@) {
                r.cgroup is None
            } else {
                r.cgroup matches Some(c) && c.path@ == crate::cgroup::cgroup_root() + p@ && !c.is_root
            },
        },
{
    proof {
        if name@.len() >= 8 && name@.subrange(name@.len() - 8, name@.len() as int) == ".service"@ {
            lemma_every_service_name_is_a_service(name@);
        }
    }
    let kind = unit_kind(name.as_str());
    let mut unit = Unit::new(name, scope);
    if kind.has_resources() {
        if let Some(p) = control_group {
            let cgroup = CGroup::new(p.as_str());
            unit = unit.with_cgroup(cgroup);
        }
        if kind.has_tasks() {
            unit = unit.with_task_proxy();
        }
        unit = unit.with_resource_proxy();
    }
    unit
}

/// Where a figure is read from.
#[derive(Clone, Copy, Debug)]
pub enum StatSource {
    /// The cgroup's accounting files (faster).
    CGroup,
    /// The unit's D-Bus proxy.
    Bus,
}

/// The next read that collecting a unit's resource figures asks for.
#[derive(Clone, Copy, Debug)]
pub enum ResourceRead {
    Ip,
    Io(StatSource),
    Cpu(StatSource),
    Memory(StatSource),
    Done,
}

/// The position of a read in the order ip, io, cpu, memory.
pub open spec fn stage_of(r: ResourceRead) -> int {
    match r {
        ResourceRead::Ip => 0,
        ResourceRead::Io(_) => 1,
        ResourceRead::Cpu(_) => 2,
        ResourceRead::Memory(_) => 3,
        ResourceRead::Done => 4,
    }
}

/// Whether a read is from a cgroup.
pub open spec fn reads_cgroup(r: ResourceRead) -> bool {
    r matches ResourceRead::Io(StatSource::CGroup) || r matches ResourceRead::Cpu(
        StatSource::CGroup,
    ) || r matches ResourceRead::Memory(StatSource::CGroup)
}

/// The collection of one unit's resource figures: which kinds of accounting
/// are on, whether the unit has a cgroup, what has been read so far and what
/// to read next. Each kind that is on is read once, in the order ip, io, cpu,
/// memory; io, cpu and memory are read from the cgroup first where there is
/// one, and from the bus where there is none or the cgroup read failed.
pub struct ResourceCollection {
    pub stats: ResourceStats,
    pub next: ResourceRead,
    pub ip: bool,
    pub io: bool,
    pub cpu: bool,
    pub memory: bool,
    pub from_cgroup: bool,
}

impl ResourceCollection {
    /// Whether the kind at position `stage` is to be read.
    pub open spec fn enabled(&self, stage: int) -> bool {
        (stage == 0 && self.ip) || (stage == 1 && self.io) || (stage == 2 && self.cpu) || (stage
            == 3 && self.memory)
    }

    /// The source of a first attempt at io, cpu or memory figures.
    pub open spec fn first_source(&self) -> StatSource {
        if self.from_cgroup {
            StatSource::CGroup
        } else {
            StatSource::Bus
        }
    }

    /// The first read at position `stage` or later that is to be made.
    pub open spec fn read_from(&self, stage: int) -> ResourceRead {
        if stage <= 0 && self.ip {
            ResourceRead::Ip
        } else if stage <= 1 && self.io {
            ResourceRead::Io(self.first_source())
        } else if stage <= 2 && self.cpu {
            ResourceRead::Cpu(self.first_source())
        } else if stage <= 3 && self.memory {
            ResourceRead::Memory(self.first_source())
        } else {
            ResourceRead::Done
        }
    }

    /// The figures of the kind at position `stage` are all zero.
    pub open spec fn part_zero(&self, stage: int) -> bool {
        &&& stage == 0 ==> self.stats.ip_stats.is_zero()
        &&& stage == 1 ==> self.stats.io_stats.is_zero()
        &&& stage == 2 ==> self.stats.cpu_stats.is_zero()
        &&& stage == 3 ==> self.stats.mem_stats.is_zero()
    }

    /// The collection's invariant: the next read is of a kind that is on and
    /// from a cgroup only where there is one, and the figures of every kind
    /// that is off or not read yet are zero.
    pub open spec fn wf(&self) -> bool {
        &&& self.next !is Done ==> self.enabled(stage_of(self.next))
        &&& reads_cgroup(self.next) ==> self.from_cgroup
        &&& forall|t: int|
            0 <= t < 4 && (!self.enabled(t) || t >= stage_of(self.next)) ==> #[trigger] self.part_zero(t)
    }

    /// A bound on the reads still to come: two per kind not yet read (a
    /// cgroup attempt and a bus read), less the cgroup attempt where the next
    /// read is already from the bus.
    pub open spec fn steps_left(&self) -> nat {
        let stage = stage_of(self.next);
        let base = (2 * (4 - stage)) as nat;
        if self.next is Done || reads_cgroup(self.next) {
            base
        } else {
            (base - 1) as nat
        }
    }

    /// The same plan of reads.
    pub open spec fn same_plan(&self, other: &ResourceCollection) -> bool {
        self.ip == other.ip && self.io == other.io && self.cpu == other.cpu && self.memory
            == other.memory && self.from_cgroup == other.from_cgroup
    }

    /// Takes the network figures, read from the bus.
    pub fn ip_read(&mut self, s: IPStats)
        requires
            old(self).wf(),
            old(self).next is Ip,
        ensures
            final(self).wf(),
            final(self).same_plan(old(self)),
            final(self).stats == (ResourceStats { ip_stats: s, ..old(self).stats }),
            final(self).next == old(self).read_from(1),
            final(self).steps_left() < old(self).steps_left(),
    {
        let ghost o = *self;
        self.stats.ip_stats = s;
        self.next = self.after(1);
        proof {
            ResourceCollection::lemma_step_wf(o, *self, 0);
        }
    }

    /// Takes the I/O figures.
    pub fn io_read(&mut self, s: IOStats)
        requires
            old(self).wf(),
            old(self).next is Io,
        ensures
            final(self).wf(),
            final(self).same_plan(old(self)),
            final(self).stats == (ResourceStats { io_stats: s, ..old(self).stats }),
            final(self).next == old(self).read_from(2),
            final(self).steps_left() < old(self).steps_left(),
    {
        let ghost o = *self;
        self.stats.io_stats = s;
        self.next = self.after(2);
        proof {
            ResourceCollection::lemma_step_wf(o, *self, 1);
        }
    }

    /// Takes the CPU figures.
    pub fn cpu_read(&mut self, s: CPUStats)
        requires
            old(self).wf(),
            old(self).next is Cpu,
        ensures
            final(self).wf(),
            final(self).same_plan(old(self)),
            final(self).stats == (ResourceStats { cpu_stats: s, ..old(self).stats }),
            final(self).next == old(self).read_from(3),
            final(self).steps_left() < old(self).steps_left(),
    {
        let ghost o = *self;
        self.stats.cpu_stats = s;
        self.next = self.after(3);
        proof {
            ResourceCollection::lemma_step_wf(o, *self, 2);
        }
    }

    /// Takes the memory figures; nothing is left to read.
    pub fn memory_read(&mut self, s: MemoryStats)
        requires
            old(self).wf(),
            old(self).next is Memory,
        ensures
            final(self).wf(),
            final(self).same_plan(old(self)),
            final(self).stats == (ResourceStats { mem_stats: s, ..old(self).stats }),
            final(self).next is Done,
            final(self).steps_left() < old(self).steps_left(),
    {
        let ghost o = *self;
        self.stats.mem_stats = s;
        self.next = ResourceRead::Done;
        proof {
            ResourceCollection::lemma_step_wf(o, *self, 3);
        }
    }

    /// Notes that reading the cgroup failed: the same kind is to be read from
    /// the bus instead.
    pub fn cgroup_failed(&mut self)
        requires
            old(self).wf(),
            reads_cgroup(old(self).next),
        ensures
            final(self).wf(),
            final(self).same_plan(old(self)),
            final(self).stats == old(self).stats,
            final(self).next == match old(self).next {
                ResourceRead::Io(_) => ResourceRead::Io(StatSource::Bus),
                ResourceRead::Cpu(_) => ResourceRead::Cpu(StatSource::Bus),
                _ => ResourceRead::Memory(StatSource::Bus),
            },
            final(self).steps_left() < old(self).steps_left(),
    {
        self.next = match self.next {
            ResourceRead::Io(_) => ResourceRead::Io(StatSource::Bus),
            ResourceRead::Cpu(_) => ResourceRead::Cpu(StatSource::Bus),
            _ => ResourceRead::Memory(StatSource::Bus),
        };
        assert forall|t: int|
            0 <= t < 4 && (!self.enabled(t) || t >= stage_of(self.next)) implies #[trigger] self.part_zero(t) by {
            assert(old(self).part_zero(t));
        }
    }

    proof fn lemma_read_from(&self, stage: int)
        requires
            0 <= stage <= 4,
        ensures
            self.read_from(stage) !is Done ==> self.enabled(stage_of(self.read_from(stage))),
            stage <= stage_of(self.read_from(stage)),
            reads_cgroup(self.read_from(stage)) ==> self.from_cgroup,
            forall|t: int| stage <= t < stage_of(self.read_from(stage)) ==> !#[trigger] self.enabled(t),
    {
    }

    /// A collection that read the kind at position `stage` (and moved on to
    /// the first later read) still holds its invariant.
    proof fn lemma_step_wf(old_c: ResourceCollection, new_c: ResourceCollection, stage: int)
        requires
            old_c.wf(),
            0 <= stage < 4,
            stage_of(old_c.next) == stage,
            new_c.same_plan(&old_c),
            new_c.next == old_c.read_from(stage + 1),
            forall|t: int| 0 <= t < 4 && t != stage ==> (#[trigger] new_c.part_zero(t) <== old_c.part_zero(t)),
        ensures
            new_c.wf(),
    {
        old_c.lemma_read_from(stage + 1);
        assert(old_c.read_from(stage + 1) == new_c.read_from(stage + 1));
        assert forall|t: int|
            0 <= t < 4 && (!new_c.enabled(t) || t >= stage_of(new_c.next)) implies #[trigger] new_c.part_zero(t) by {
            assert(new_c.enabled(t) == old_c.enabled(t));
            if t != stage {
                assert(old_c.part_zero(t));
            }
        }
    }

    fn after(&self, stage: u8) -> (r: ResourceRead)
        requires
            1 <= stage <= 4,
        ensures
            r == self.read_from(stage as int),
    {
        let src = if self.from_cgroup {
            StatSource::CGroup
        } else {
            StatSource::Bus
        };
        if stage <= 1 && self.io {
            ResourceRead::Io(src)
        } else if stage <= 2 && self.cpu {
            ResourceRead::Cpu(src)
        } else if stage <= 3 && self.memory {
            ResourceRead::Memory(src)
        } else {
            ResourceRead::Done
        }
    }
}

impl Unit {
    /// Starts collecting the unit's resource figures: nothing is read where
    /// the unit does not run or has no resource proxy; otherwise the kinds of
    /// accounting that are on are read, from the cgroup where it has one.
    pub fn begin_resource_collection(&self) -> (r: ResourceCollection)
        ensures
            r.wf(),
            r.stats.is_zero(),
            r.ip == self.accounting.ip,
            r.io == self.accounting.io,
            r.cpu == self.accounting.cpu,
            r.memory == self.accounting.memory,
            r.from_cgroup == self.cgroup is Some,
            r.next == if self.is_running() && self.has_resource_proxy {
                r.read_from(0)
            } else {
                ResourceRead::Done
            },
            self.has_resource_proxy && self.accounting.ip && self.status.active_state@ != "inactive"@
                && self.status.sub_state@ != "exited"@ ==> r.next is Ip,
            !self.has_resource_proxy || self.status.active_state@ == "inactive"@
                || self.status.sub_state@ == "exited"@ ==> r.next is Done,
    {
        let mut c = ResourceCollection {
            stats: ResourceStats::default(),
            next: ResourceRead::Done,
            ip: self.accounting.ip,
            io: self.accounting.io,
            cpu: self.accounting.cpu,
            memory: self.accounting.memory,
            from_cgroup: self.cgroup.is_some(),
        };
        if self.running() && self.has_resource_proxy {
            c.next = if c.ip {
                ResourceRead::Ip
            } else {
                c.after(1)
            };
        }
        c
    }
}

/// A unit runs unless its active state is `inactive` or its sub-state is
/// `exited`: every other state, `reloading` and `activating` among them,
/// counts as running, so its figures are read.
pub proof fn lemma_running_unless_inactive_or_exited(u: Unit)
    ensures
        u.is_running() <==> (u.status.active_state@ != "inactive"@ && u.status.sub_state@ != "exited"@),
{
}

/// Every unit whose name ends in `.service`, a template instance such as
/// `getty@tty1.service` among them, is a service: it gets a task proxy and a
/// resource proxy.
pub proof fn lemma_every_service_name_is_a_service(name: Seq<char>)
    requires
        name.len() >= 8,
        name.subrange(name.len() - 8, name.len() as int) == ".service"@,
    ensures
        kind_of(name) is Service,
{
    assert(".service"@.len() == 8) by {
        reveal_strlit(".service");
    }
}

/// Whether `s` ends in `t`.
pub open spec fn ends_in(s: Seq<char>, t: Seq<char>) -> bool {
    s.len() >= t.len() && s.subrange(s.len() - t.len(), s.len() as int) =~= t
}

/// A unit has figures to read (its kind is not `Other`) exactly when its
/// name ends in `.service`, `.slice`, `.mount`, `.socket` or `.scope`, and it
/// has a task proxy exactly when its name ends in `.service`.
pub proof fn lemma_kinds_with_figures(name: Seq<char>)
    ensures
        !(kind_of(name) is Other) <==> (ends_in(name, ".service"@) || ends_in(name, ".slice"@) || ends_in(
            name,
            ".mount"@,
        ) || ends_in(name, ".socket"@) || ends_in(name, ".scope"@)),
        kind_of(name) is Service <==> ends_in(name, ".service"@),
{
}

/// Once a collection is done, the figures of every kind of accounting that
/// is off are zero.
pub proof fn lemma_done_collection_skips_disabled(c: ResourceCollection)
    requires
        c.wf(),
        c.next is Done,
    ensures
        !c.ip ==> c.stats.ip_stats.is_zero(),
        !c.io ==> c.stats.io_stats.is_zero(),
        !c.cpu ==> c.stats.cpu_stats.is_zero(),
        !c.memory ==> c.stats.mem_stats.is_zero(),
{
    if !c.ip {
        assert(c.part_zero(0));
    }
    if !c.io {
        assert(c.part_zero(1));
    }
    if !c.cpu {
        assert(c.part_zero(2));
    }
    if !c.memory {
        assert(c.part_zero(3));
    }
}

/// The units that the follower of a manager tracks, by unit name. At most
/// one entry per name.
pub struct UnitTable<T> {
    names: Vec<String>,
    units: Vec<T>,
}

impl<T> UnitTable<T> {
    /// The names in the table, in order.
    pub closed spec fn names(&self) -> Seq<Seq<char>> {
        self.names@.map_values(|n: String| n@)
    }

    /// The units in the table, in the order of `names`.
    pub closed spec fn units(&self) -> Seq<T> {
        self.units@
    }

    /// The table as a map from unit name to unit.
    pub open spec fn as_map(&self) -> Map<Seq<char>, T> {
        Map::new(
            |k: Seq<char>| self.names().contains(k),
            |k: Seq<char>| self.units()[self.names().index_of(k)],
        )
    }

    /// Each name occurs once.
    pub closed spec fn wf(&self) -> bool {
        self.names().no_duplicates() && self.names().len() == self.units().len()
    }

    /// An empty table.
    pub fn new() -> (r: Self)
        ensures
            r.wf(),
            r.as_map() == Map::<Seq<char>, T>::empty(),
    {
        let r = UnitTable { names: Vec::new(), units: Vec::new() };
        assert(r.as_map() =~= Map::<Seq<char>, T>::empty());
        r
    }

    /// The number of units in the table.
    pub fn len(&self) -> (r: usize)
        requires
            self.wf(),
        ensures
            r == self.names().len(),
    {
        self.names.len()
    }

    /// The unit at position `i`.
    pub fn unit_at(&self, i: usize) -> (r: &T)
        requires
            self.wf(),
            i < self.names().len(),
        ensures
            *r == self.units()[i as int],
    {
        &self.units[i]
    }

    /// The unit at position `i`, to change in place.
    pub fn unit_at_mut(&mut self, i: usize) -> (r: &mut T)
        requires
            old(self).wf(),
            i < old(self).names().len(),
        ensures
            *r == old(self).units()[i as int],
            final(self).names() == old(self).names(),
            final(self).units() == old(self).units().update(i as int, *final(r)),
    {
        &mut self.units[i]
    }

    /// The position of the unit named `name`, if it is there.
    pub fn position(&self, name: &str) -> (r: Option<usize>)
        requires
            self.wf(),
        ensures
            match r {
                Some(i) => i < self.names().len() && self.names()[i as int] == name@,
                None => !self.names().contains(name@),
            },
    {
        let mut i: usize = 0;
        while i < self.names.len()
            invariant
                i <= self.names@.len(),
                forall|j: int| 0 <= j < i ==> self.names()[j] != name@,
            decreases self.names@.len() - i,
        {
            if str_eq(self.names[i].as_str(), name) {
                return Some(i);
            }
            i = i + 1;
        }
        None
    }

    /// Adds `unit` under `name`, replacing (and dropping) the unit that had
    /// that name.
    pub fn insert(&mut self, name: String, unit: T)
        requires
            old(self).wf(),
        ensures
            final(self).wf(),
            final(self).as_map() == old(self).as_map().insert(name@, unit),
    {
        let ghost old_names = self.names();
        let ghost old_units = self.units();
        let ghost key = name@;
        match self.position(name.as_str()) {
            Some(i) => {
                self.units.set(i, unit);
                proof {
                    assert(self.names() =~= old_names);
                    assert(self.units() =~= old_units.update(i as int, unit));
                    assert(old_names.index_of(key) == i as int) by {
                        lemma_index_of_unique(old_names, i as int);
                    }
                    let target = old(self).as_map().insert(key, unit);
                    assert forall|k: Seq<char>| #[trigger] self.as_map().dom().contains(k) implies
                        self.as_map()[k] == target[k] by {
                        if k != key {
                            lemma_index_of_contains(self.names(), k);
                            assert(self.names().index_of(k) != i);
                        }
                    }
                    assert(self.as_map().dom() =~= target.dom());
                    assert(self.as_map() =~= target);
                }
            },
            None => {
                self.names.push(name);
                self.units.push(unit);
                proof {
                    assert(self.names() =~= old_names.push(key));
                    assert(self.units() =~= old_units.push(unit));
                    lemma_push_no_duplicates(old_names, key);
                    lemma_index_of_unique(self.names(), old_names.len() as int);
                    let target = old(self).as_map().insert(key, unit);
                    assert forall|k: Seq<char>| #[trigger] target.dom().contains(k)
                        <==> self.as_map().dom().contains(k) by {
                        if old_names.contains(k) {
                            lemma_index_of_contains(old_names, k);
                            assert(self.names()[old_names.index_of(k)] == k);
                        }
                        if k == key {
                            assert(self.names()[old_names.len() as int] == k);
                        }
                        if self.names().contains(k) && k != key {
                            lemma_index_of_contains(self.names(), k);
                            let j = self.names().index_of(k);
                            assert(old_names[j] == k);
                        }
                    }
                    assert forall|k: Seq<char>| #[trigger] self.as_map().dom().contains(k) implies
                        self.as_map()[k] == target[k] by {
                        if k != key {
                            lemma_index_of_contains(self.names(), k);
                            let j = self.names().index_of(k);
                            assert(j < old_names.len());
                            assert(old_names[j] == k);
                            lemma_index_of_unique(old_names, j);
                            lemma_index_of_unique(self.names(), j);
                        }
                    }
                    assert(self.as_map() =~= target);
                }
            },
        }
    }

    /// Removes the unit named `name`, if it is there.
    pub fn remove(&mut self, name: &str)
        requires
            old(self).wf(),
        ensures
            final(self).wf(),
            final(self).as_map() == old(self).as_map().remove(name@),
    {
        match self.position(name) {
            Some(i) => {
                let ghost old_names = self.names();
                let ghost old_units = self.units();
                self.names.remove(i);
                self.units.remove(i);
                proof {
                    assert(self.names() =~= old_names.remove(i as int));
                    assert(self.units() =~= old_units.remove(i as int));
                    lemma_remove_no_duplicates(old_names, i as int);
                    assert forall|k: Seq<char>| #[trigger] self.names().contains(k) implies
                        self.units()[self.names().index_of(k)] == old(self).as_map()[k] && k != name@ by {
                        lemma_index_of_contains(self.names(), k);
                        let j = self.names().index_of(k);
                        let oj = if j < i { j } else { j + 1 };
                        assert(old_names[oj] == k);
                        lemma_index_of_unique(old_names, oj);
                        if k == name@ {
                            lemma_index_of_unique(old_names, i as int);
                        }
                    }
                    assert forall|k: Seq<char>| old_names.contains(k) && k != name@ implies
                        #[trigger] self.names().contains(k) by {
                        lemma_index_of_contains(old_names, k);
                        let oj = old_names.index_of(k);
                        assert(oj != i);
                        let j = if oj < i { oj } else { oj - 1 };
                        assert(self.names()[j] == k);
                    }
                    assert(self.as_map() =~= old(self).as_map().remove(name@));
                }
            },
            None => {
                assert(old(self).as_map().remove(name@) =~= old(self).as_map());
            },
        }
    }
}

/// What a manager reports of one of its units.
pub enum UnitEvent {
    /// The unit was loaded.
    New,
    /// The unit was unloaded.
    Removed,
    /// A job for the unit was queued.
    JobNew,
    /// A job for the unit finished.
    JobRemoved,
}

/// What the follower of a manager is to do after a unit event.
pub enum UnitAction {
    /// Read the unit and its status, and insert it in place of any unit with
    /// its name.
    Load,
    /// Read the status of the unit at this position again.
    RefreshStatus(usize),
    /// Nothing more.
    Ignore,
}

/// Handles an event about the unit named `name` against the table of
/// tracked units: a new unit is to be loaded; a removed one leaves the
/// table; a job change refreshes the status of the unit where it is
/// tracked, and is ignored otherwise.
pub fn on_unit_event<T>(units: &mut UnitTable<T>, event: UnitEvent, name: &str) -> (action: UnitAction)
    requires
        old(units).wf(),
    ensures
        final(units).wf(),
        event is Removed ==> final(units).as_map() == old(units).as_map().remove(name@) && action is Ignore,
        !(event is Removed) ==> final(units).as_map() == old(units).as_map() && final(units).names()
            == old(units).names(),
        event is New ==> action is Load,
        (event is JobNew || event is JobRemoved) ==> match action {
            UnitAction::RefreshStatus(i) => i < final(units).names().len() && final(units).names()[i as int]
                == name@,
            UnitAction::Ignore => !old(units).as_map().contains_key(name@),
            UnitAction::Load => false,
        },
{
    match event {
        UnitEvent::New => UnitAction::Load,
        UnitEvent::Removed => {
            units.remove(name);
            UnitAction::Ignore
        },
        UnitEvent::JobNew | UnitEvent::JobRemoved => match units.position(name) {
            Some(i) => UnitAction::RefreshStatus(i),
            None => UnitAction::Ignore,
        },
    }
}

} // verus!
