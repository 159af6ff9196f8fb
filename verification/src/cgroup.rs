use vstd::prelude::*;

use crate::stats::{CPUStats, IOStats, MemoryStats, TaskStats};
use crate::text::{
    ascii_tokens, chars_eq, chars_of, first_index, parse_or_zero, parse_u64_or_zero, split_char,
    split_on, split_ascii_whitespace, split_once, trim, trim_ws, views,
};

verus! {

/// Where the cgroup hierarchy is mounted.
pub open spec fn cgroup_root() -> Seq<char> {
    "/sys/fs/cgroup"@
}

/// Every character of `s` is a `/` (so `s.trim_matches('/')` is empty).
pub open spec fn only_slashes(s: Seq<char>) -> bool {
    forall|i: int| 0 <= i < s.len() ==> s[i] == '/'
}

/// `base` joined with `name` as `Path::join` does on Unix: an absolute `name`
/// replaces `base`; otherwise a separator goes between them unless `base` is
/// empty or already ends with one.
pub open spec fn join_path(base: Seq<char>, name: Seq<char>) -> Seq<char> {
    if name.len() > 0 && name[0] == '/' {
        name
    } else if base.len() == 0 || base.last() == '/' {
        base + name
    } else {
        base + seq!['/'] + name
    }
}

/// Joins two paths as `Path::join` does on Unix.
pub fn join(base: &str, name: &str) -> (r: String)
    ensures
        r@ == join_path(base@, name@),
{
    let vb = chars_of(base);
    let vn = chars_of(name);
    if vn.len() > 0 && vn[0] == '/' {
        return String::from_str(name);
    }
    let mut r = String::from_str(base);
    if vb.len() > 0 && vb[vb.len() - 1] != '/' {
        r.append("/");
        proof {
            reveal_strlit("/");
        }
    }
    r.append(name);
    proof {
        assert(base@.len() > 0 ==> base@.last() == vb@[vb@.len() - 1]);
    }
    r
}

/// A unit's cgroup: the directory under the cgroup mount where the kernel
/// keeps its accounting files.
pub struct CGroup {
    pub path: String,
    pub is_root: bool,
}

impl CGroup {
    /// The cgroup at `path` below the cgroup mount; it is the root cgroup
    /// when `path` holds nothing but slashes.
    pub fn new(path: &str) -> (r: Self)
        ensures
            r.path@ == cgroup_root() + path@,
            r.is_root == only_slashes(path@),
    {
        let mut full = String::from_str("/sys/fs/cgroup");
        full.append(path);
        let v = chars_of(path);
        let mut is_root = true;
        let mut i: usize = 0;
        while i < v.len()
            invariant
                v@ == path@,
                i <= v@.len(),
                is_root == (forall|j: int| 0 <= j < i ==> v@[j] == '/'),
            decreases v@.len() - i,
        {
            if v[i] != '/' {
                is_root = false;
            }
            i = i + 1;
        }
        CGroup { path: full, is_root }
    }

    /// The directory of this cgroup, as text.
    pub fn path(&self) -> (r: String)
        ensures
            r@ == self.path@,
    {
        self.path.clone()
    }

    /// The path of the accounting file `name` of this cgroup.
    pub fn stat_file(&self, name: &str) -> (r: String)
        ensures
            r@ == join_path(self.path@, name@),
    {
        join(self.path.as_str(), name)
    }

    /// The CPU figures in the text of `cpu.stat`: the number of microseconds
    /// that follows the first `usage_usec` key (0 where there is none), in
    /// nanoseconds, saturating at `u64::MAX`.
    pub fn read_cpu_stats(&self, raw_stats: &str) -> (r: CPUStats)
        ensures
            r.usage_nsec == cpu_stat_usage(raw_stats@),
    {
        let chars = chars_of(raw_stats);
        let toks = split_ascii_whitespace(chars.as_slice());
        let key = chars_of("usage_usec");
        let ghost t = views(toks@);
        let mut i: usize = 0;
        while i < toks.len() && i + 1 < toks.len()
            invariant
                t == views(toks@),
                t == ascii_tokens(raw_stats@),
                key@ == usage_key(),
                i <= toks@.len(),
                usage_from(t, 0) == usage_from(t, i as int),
            decreases toks@.len() - i,
        {
            assert(t[i as int] == toks@[i as int]@);
            if chars_eq(toks[i].as_slice(), key.as_slice()) {
                let v = parse_u64_or_zero(toks[i + 1].as_slice());
                assert(t[i + 1] == toks@[i + 1]@);
                let nanos = match v.checked_mul(1000) {
                    Some(n) => n,
                    None => u64::MAX,
                };
                return CPUStats { usage_nsec: nanos };
            }
            i = i + 1;
        }
        CPUStats { usage_nsec: 0 }
    }

    /// The I/O figures in the text of `io.stat`: on each line, after the
    /// device, `key=value` entries whose values add up per key.
    pub fn read_io_stats(&self, raw_stats: &str) -> (r: IOStats)
        requires
            io_stat_valid(raw_stats@),
        ensures
            r.read_bytes == io_total(io_stat_entries(raw_stats@), io_read_bytes_key()),
            r.write_bytes == io_total(io_stat_entries(raw_stats@), io_write_bytes_key()),
            r.read_ops == io_total(io_stat_entries(raw_stats@), io_read_ops_key()),
            r.write_ops == io_total(io_stat_entries(raw_stats@), io_write_ops_key()),
    {
        match tally_io_stat(raw_stats) {
            Some(s) => s,
            None => IOStats { read_bytes: 0, write_bytes: 0, read_ops: 0, write_ops: 0 },
        }
    }

    /// The memory figures in the texts of `memory.current`, `memory.peak`,
    /// `memory.swap.current` and `memory.swap.peak`; `available` stays 0.
    pub fn read_memory_stats(&self, current: &str, peak: &str, swap: &str, swap_peak: &str) -> (r:
        MemoryStats)
        ensures
            r.current == single_stat(current@),
            r.available == 0,
            r.peak == single_stat(peak@),
            r.swap == single_stat(swap@),
            r.swap_peak == single_stat(swap_peak@),
    {
        MemoryStats {
            current: read_single_stat(current),
            available: 0,
            peak: read_single_stat(peak),
            swap: read_single_stat(swap),
            swap_peak: read_single_stat(swap_peak),
        }
    }

    /// The task figures in the text of `pids.current`: only `count` is set.
    pub fn read_task_stats(&self, pids_current: &str) -> (r: TaskStats)
        ensures
            r.count == single_stat(pids_current@),
            r.main_pid == 0,
            r.start_ts == 0,
            r.stop_ts == 0,
    {
        TaskStats { count: read_single_stat(pids_current), main_pid: 0, start_ts: 0, stop_ts: 0 }
    }
}

/// The value in a single-number accounting file: the trimmed text parsed as
/// an unsigned number, or 0 where it does not parse.
pub open spec fn single_stat(raw: Seq<char>) -> u64 {
    parse_or_zero(trim_ws(raw))
}

/// Reads the number in the text of a single-number accounting file.
pub fn read_single_stat(raw: &str) -> (r: u64)
    ensures
        r == single_stat(raw@),
{
    let chars = chars_of(raw);
    let t = trim(chars.as_slice());
    parse_u64_or_zero(t.as_slice())
}

pub open spec fn usage_key() -> Seq<char> {
    "usage_usec"@
}

/// `micros` microseconds in nanoseconds, saturating at `u64::MAX`.
pub open spec fn nanos_of_micros(micros: u64) -> u64 {
    if micros * 1000 <= u64::MAX {
        (micros * 1000) as u64
    } else {
        u64::MAX
    }
}

/// The number after the first `usage_usec` among the tokens from index `i`
/// on that has a token after it; 0 where there is none.
pub open spec fn usage_from(t: Seq<Seq<char>>, i: int) -> u64
    decreases t.len() - i,
{
    if i < 0 || i + 1 >= t.len() {
        0
    } else if t[i] == usage_key() {
        parse_or_zero(t[i + 1])
    } else {
        usage_from(t, i + 1)
    }
}

/// The CPU time that the text of `cpu.stat` reports, in nanoseconds.
pub open spec fn cpu_stat_usage(raw: Seq<char>) -> u64 {
    nanos_of_micros(usage_from(ascii_tokens(raw), 0))
}

pub open spec fn io_read_bytes_key() -> Seq<char> {
    "rbytes"@
}

pub open spec fn io_write_bytes_key() -> Seq<char> {
    "wbytes"@
}

pub open spec fn io_read_ops_key() -> Seq<char> {
    "rios"@
}

pub open spec fn io_write_ops_key() -> Seq<char> {
    "wios"@
}

/// The tokens of a line after the first.
pub open spec fn tail_tokens(line: Seq<char>) -> Seq<Seq<char>> {
    let t = ascii_tokens(line);
    if t.len() == 0 {
        seq![]
    } else {
        t.drop_first()
    }
}

/// The `key=value` entries of the given lines, in order.
pub open spec fn line_entries(lines: Seq<Seq<char>>) -> Seq<Seq<char>>
    decreases lines.len(),
{
    if lines.len() == 0 {
        seq![]
    } else {
        line_entries(lines.drop_last()) + tail_tokens(lines.last())
    }
}

/// The `key=value` entries in the text of `io.stat`.
pub open spec fn io_stat_entries(raw: Seq<char>) -> Seq<Seq<char>> {
    line_entries(split_on(raw, '\n'))
}

/// The key of an entry: the text before its first `=`.
pub open spec fn entry_key(e: Seq<char>) -> Seq<char> {
    e.take(first_index(e, '='))
}

/// The value of an entry: the text after its first `=`.
pub open spec fn entry_value(e: Seq<char>) -> Seq<char> {
    e.skip(first_index(e, '=') + 1)
}

/// The sum of the values of the entries with the given key.
pub open spec fn io_total(entries: Seq<Seq<char>>, key: Seq<char>) -> nat
    decreases entries.len(),
{
    if entries.len() == 0 {
        0
    } else {
        io_total(entries.drop_last(), key) + if entry_key(entries.last()) == key {
            parse_or_zero(entry_value(entries.last())) as nat
        } else {
            0nat
        }
    }
}

/// Every entry holds a `=`.
pub open spec fn entries_well_formed(entries: Seq<Seq<char>>) -> bool {
    forall|k: int| 0 <= k < entries.len() ==> first_index(#[trigger] entries[k], '=') < entries[k].len()
}

/// The text of `io.stat` can be read without a failure: each entry holds a
/// `=` and each total fits in 64 bits.
pub open spec fn io_stat_valid(raw: Seq<char>) -> bool {
    let e = io_stat_entries(raw);
    &&& entries_well_formed(e)
    &&& io_total(e, io_read_bytes_key()) <= u64::MAX
    &&& io_total(e, io_write_bytes_key()) <= u64::MAX
    &&& io_total(e, io_read_ops_key()) <= u64::MAX
    &&& io_total(e, io_write_ops_key()) <= u64::MAX
}

/// Whether the text of `io.stat` can be read without a failure.
pub fn io_stat_is_valid(raw_stats: &str) -> (r: bool)
    ensures
        r == io_stat_valid(raw_stats@),
{
    tally_io_stat(raw_stats).is_some()
}

fn collect_entries(raw: &str) -> (r: Vec<Vec<char>>)
    ensures
        views(r@) == io_stat_entries(raw@),
{
    let chars = chars_of(raw);
    let lines = split_char(chars.as_slice(), '\n');
    let ghost ls = views(lines@);
    let mut out: Vec<Vec<char>> = Vec::new();
    let mut i: usize = 0;
    while i < lines.len()
        invariant
            ls == views(lines@),
            ls == split_on(raw@, '\n'),
            i <= lines@.len(),
            views(out@) == line_entries(ls.take(i as int)),
        decreases lines@.len() - i,
    {
        let toks = split_ascii_whitespace(lines[i].as_slice());
        let ghost base = views(out@);
        let mut j: usize = 1;
        proof {
            if toks@.len() > 0 {
                assert(views(toks@).subrange(1, 1) =~= Seq::<Seq<char>>::empty());
                assert(base + views(toks@).subrange(1, 1) =~= base);
            }
        }
        while j < toks.len()
            invariant
                1 <= j,
                i < ls.len(),
                j <= toks@.len() || toks@.len() == 0,
                views(toks@) == ascii_tokens(ls[i as int]),
                toks@.len() > 0 ==> views(out@) == base + views(toks@).subrange(1, j as int),
                toks@.len() == 0 ==> views(out@) == base,
            decreases toks@.len() - j,
        {
            let e = toks[j].clone();
            assert(e@ =~= toks@[j as int]@);
            let ghost before = out@;
            out.push(e);
            assert(views(out@) =~= views(before).push(e@));
            assert(views(toks@).subrange(1, j + 1) =~= views(toks@).subrange(1, j as int).push(e@));
            j = j + 1;
        }
        proof {
            assert(ls.take(i + 1).drop_last() =~= ls.take(i as int));
            assert(ls.take(i + 1).last() == ls[i as int]);
            if toks@.len() == 0 {
                assert(views(toks@).len() == 0);
                assert(views(out@) =~= base + tail_tokens(ls[i as int]));
            } else {
                assert(views(toks@).subrange(1, toks@.len() as int) =~= views(toks@).drop_first());
            }
        }
        i = i + 1;
    }
    assert(ls.take(lines@.len() as int) =~= ls);
    out
}

proof fn lemma_total_step(entries: Seq<Seq<char>>, k: int, key: Seq<char>)
    requires
        0 <= k < entries.len(),
    ensures
        io_total(entries.take(k + 1), key) == io_total(entries.take(k), key) + if entry_key(
            entries[k],
        ) == key {
            parse_or_zero(entry_value(entries[k])) as nat
        } else {
            0nat
        },
{
    assert(entries.take(k + 1).drop_last() =~= entries.take(k));
}

proof fn lemma_total_prefix_le(entries: Seq<Seq<char>>, k: int, key: Seq<char>)
    requires
        0 <= k <= entries.len(),
    ensures
        io_total(entries.take(k), key) <= io_total(entries, key),
    decreases entries.len() - k,
{
    if k < entries.len() {
        lemma_total_step(entries, k, key);
        lemma_total_prefix_le(entries, k + 1, key);
    } else {
        assert(entries.take(k) =~= entries);
    }
}

/// Adds `v` to `acc` when `key` is `target`; `None` where the sum overflows.
fn add_if(acc: u64, key: &[char], target: &[char], v: u64) -> (r: Option<u64>)
    ensures
        key@ == target@ ==> match r {
            Some(s) => s == acc + v,
            None => acc + v > u64::MAX,
        },
        key@ != target@ ==> r == Some(acc),
{
    if chars_eq(key, target) {
        acc.checked_add(v)
    } else {
        Some(acc)
    }
}

/// Adds up the entries of `io.stat`; `None` exactly where the text is not
/// valid.
fn tally_io_stat(raw: &str) -> (r: Option<IOStats>)
    ensures
        r is Some <==> io_stat_valid(raw@),
        r matches Some(s) ==> {
            &&& s.read_bytes == io_total(io_stat_entries(raw@), io_read_bytes_key())
            &&& s.write_bytes == io_total(io_stat_entries(raw@), io_write_bytes_key())
            &&& s.read_ops == io_total(io_stat_entries(raw@), io_read_ops_key())
            &&& s.write_ops == io_total(io_stat_entries(raw@), io_write_ops_key())
        },
{
    let entries = collect_entries(raw);
    let ghost e = views(entries@);
    let rb = chars_of("rbytes");
    let wb = chars_of("wbytes");
    let ri = chars_of("rios");
    let wi = chars_of("wios");
    let mut s = IOStats { read_bytes: 0, write_bytes: 0, read_ops: 0, write_ops: 0 };
    let mut k: usize = 0;
    assert(e.take(0) =~= Seq::<Seq<char>>::empty());
    while k < entries.len()
        invariant
            e == views(entries@),
            e == io_stat_entries(raw@),
            rb@ == io_read_bytes_key(),
            wb@ == io_write_bytes_key(),
            ri@ == io_read_ops_key(),
            wi@ == io_write_ops_key(),
            k <= entries@.len(),
            entries_well_formed(e.take(k as int)),
            s.read_bytes == io_total(e.take(k as int), io_read_bytes_key()),
            s.write_bytes == io_total(e.take(k as int), io_write_bytes_key()),
            s.read_ops == io_total(e.take(k as int), io_read_ops_key()),
            s.write_ops == io_total(e.take(k as int), io_write_ops_key()),
        decreases entries@.len() - k,
    {
        assert(e[k as int] == entries@[k as int]@);
        let kv = split_once(entries[k].as_slice(), '=');
        match kv {
            None => {
                assert(!entries_well_formed(e));
                return None;
            },
            Some((key, val)) => {
                let v = parse_u64_or_zero(val.as_slice());
                proof {
                    lemma_total_step(e, k as int, io_read_bytes_key());
                    lemma_total_step(e, k as int, io_write_bytes_key());
                    lemma_total_step(e, k as int, io_read_ops_key());
                    lemma_total_step(e, k as int, io_write_ops_key());
                    lemma_total_prefix_le(e, k + 1, io_read_bytes_key());
                    lemma_total_prefix_le(e, k + 1, io_write_bytes_key());
                    lemma_total_prefix_le(e, k + 1, io_read_ops_key());
                    lemma_total_prefix_le(e, k + 1, io_write_ops_key());
                    assert(key@ == entry_key(e[k as int]));
                    assert(val@ == entry_value(e[k as int]));
                    assert forall|j: int| 0 <= j < k + 1 implies first_index(
                        #[trigger] e.take(k + 1)[j],
                        '=',
                    ) < e.take(k + 1)[j].len() by {
                        if j < k {
                            assert(e.take(k + 1)[j] == e.take(k as int)[j]);
                        }
                    }
                }
                let a = add_if(s.read_bytes, key.as_slice(), rb.as_slice(), v);
                let b = add_if(s.write_bytes, key.as_slice(), wb.as_slice(), v);
                let c = add_if(s.read_ops, key.as_slice(), ri.as_slice(), v);
                let d = add_if(s.write_ops, key.as_slice(), wi.as_slice(), v);
                match (a, b, c, d) {
                    (Some(a), Some(b), Some(c), Some(d)) => {
                        s = IOStats { read_bytes: a, write_bytes: b, read_ops: c, write_ops: d };
                    },
                    _ => {
                        return None;
                    },
                }
            },
        }
        k = k + 1;
    }
    assert(e.take(entries@.len() as int) =~= e);
    Some(s)
}

/// A monitor of the cgroup hierarchy below `path`.
pub struct Monitor {
    pub path: String,
}

impl Monitor {
    /// The directory whose entries the monitor lists: the cgroup mount joined
    /// onto the monitor's path (the mount is absolute, so it wins).
    pub fn get_stats(&self) -> (r: String)
        ensures
            r@ == join_path(self.path@, cgroup_root()),
    {
        join(self.path.as_str(), "/sys/fs/cgroup")
    }
}

} // verus!
