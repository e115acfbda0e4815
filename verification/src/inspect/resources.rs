//! GPU memory per process, as `nvidia-smi --query-compute-apps=pid,used_memory
//! --format=csv,noheader,nounits` lists it.
use vstd::prelude::*;

use crate::text::{chars_of, lines_of, parse_bounded, parse_unsigned, split_char, split_lines, split_on, trim, trim_chars};

verus! {

/// GPU process info from nvidia-smi.
pub struct GpuProcessInfo {
    pub pid: u32,
    pub gpu_memory_mb: u64,
}

/// The entry described by one line: a PID and a memory size in MB, the first
/// two comma-separated fields, each without surrounding whitespace.
pub open spec fn gpu_entry_of(l: Seq<char>) -> Option<(u32, u64)> {
    let parts = split_char(l, ',');
    if parts.len() < 2 {
        None
    } else {
        match (parse_unsigned(trim(parts[0]), u32::MAX as nat), parse_unsigned(
            trim(parts[1]),
            u64::MAX as nat,
        )) {
            (Some(pid), Some(mem)) => Some((pid as u32, mem as u64)),
            _ => None,
        }
    }
}

/// The entries read from the lines of the listing, in order.
pub open spec fn gpu_entries_of(ls: Seq<Seq<char>>) -> Seq<(u32, u64)>
    decreases ls.len(),
{
    if ls.len() == 0 {
        seq![]
    } else {
        gpu_entries_of(ls.drop_last()) + match gpu_entry_of(ls.last()) {
            Some(e) => seq![e],
            None => seq![],
        }
    }
}

/// Parse the GPU process listing; lines that do not describe a process are skipped.
pub fn parse_gpu_table(output: &str) -> (r: Vec<GpuProcessInfo>)
    ensures
        r@.map_values(|g: GpuProcessInfo| (g.pid, g.gpu_memory_mb)) == gpu_entries_of(
            lines_of(output@),
        ),
{
    let text = chars_of(output);
    let lines = split_lines(text.as_slice());
    let ghost ls = lines_of(output@);
    let mut r: Vec<GpuProcessInfo> = Vec::new();
    let mut i: usize = 0;
    while i < lines.len()
        invariant
            i <= lines@.len(),
            lines@.len() == ls.len(),
            forall|k: int| 0 <= k < lines@.len() ==> #[trigger] lines@[k]@ == ls[k],
            r@.map_values(|g: GpuProcessInfo| (g.pid, g.gpu_memory_mb)) == gpu_entries_of(
                ls.take(i as int),
            ),
        decreases lines@.len() - i,
    {
        proof {
            assert(ls.take(i + 1).drop_last() =~= ls.take(i as int));
            assert(ls.take(i + 1).last() == ls[i as int]);
            assert(lines@[i as int]@ == ls[i as int]);
        }
        let parts = split_on(lines[i].as_slice(), ',');
        if parts.len() >= 2 {
            let a = trim_chars(parts[0].as_slice());
            let b = trim_chars(parts[1].as_slice());
            match (parse_bounded(a.as_slice(), 0xffff_ffff), parse_bounded(
                b.as_slice(),
                0xffff_ffff_ffff_ffff,
            )) {
                (Some(pid), Some(mem)) => {
                    r.push(GpuProcessInfo { pid: pid as u32, gpu_memory_mb: mem });
                },
                _ => {},
            }
        }
        assert(r@.map_values(|g: GpuProcessInfo| (g.pid, g.gpu_memory_mb)) =~= gpu_entries_of(
            ls.take(i + 1),
        ));
        i = i + 1;
    }
    assert(ls.take(lines@.len() as int) =~= ls);
    r
}


// ---------------------------------------------------------------------------
// Totals over a window's processes
// ---------------------------------------------------------------------------

/// The value of the first entry for `pid`, as a search from the front finds it.
pub open spec fn first_value_of(t: Seq<(u32, u64)>, pid: u32) -> Option<u64>
    decreases t.len(),
{
    if t.len() == 0 {
        None
    } else if t[0].0 == pid {
        Some(t[0].1)
    } else {
        first_value_of(t.drop_first(), pid)
    }
}

/// The value of the last entry for `pid`, as a map filled from the entries in
/// order holds it.
pub open spec fn last_value_of(t: Seq<(u32, u64)>, pid: u32) -> Option<u64>
    decreases t.len(),
{
    if t.len() == 0 {
        None
    } else if t.last().0 == pid {
        Some(t.last().1)
    } else {
        last_value_of(t.drop_last(), pid)
    }
}

/// The sum over `pids` of each one's value (0 for a process without entry),
/// taking the first entry (`first`) or the last one for each.
pub open spec fn total_of(t: Seq<(u32, u64)>, pids: Seq<u32>, first: bool) -> nat
    decreases pids.len(),
{
    if pids.len() == 0 {
        0
    } else {
        let v = if first {
            first_value_of(t, pids.last())
        } else {
            last_value_of(t, pids.last())
        };
        total_of(t, pids.drop_last(), first) + match v {
            Some(x) => x as nat,
            None => 0,
        }
    }
}

/// The total when it fits in a `u64`, else `None`.
pub open spec fn bounded_total(t: Seq<(u32, u64)>, pids: Seq<u32>, first: bool) -> Option<u64> {
    if total_of(t, pids, first) <= u64::MAX {
        Some(total_of(t, pids, first) as u64)
    } else {
        None
    }
}

proof fn lemma_total_monotone(t: Seq<(u32, u64)>, pids: Seq<u32>, first: bool, k: int)
    requires
        0 <= k <= pids.len(),
    ensures
        total_of(t, pids.take(k), first) <= total_of(t, pids, first),
    decreases pids.len(),
{
    if k < pids.len() {
        lemma_total_monotone(t, pids.drop_last(), first, k);
        assert(pids.drop_last().take(k) =~= pids.take(k));
    } else {
        assert(pids.take(k) =~= pids);
    }
}

fn first_value(t: &[(u32, u64)], pid: u32) -> (r: Option<u64>)
    ensures
        r == first_value_of(t@, pid),
{
    let mut i: usize = 0;
    assert(t@.skip(0) =~= t@);
    while i < t.len()
        invariant
            i <= t@.len(),
            first_value_of(t@, pid) == first_value_of(t@.skip(i as int), pid),
        decreases t@.len() - i,
    {
        assert(t@.skip(i as int).drop_first() =~= t@.skip(i + 1));
        if t[i].0 == pid {
            return Some(t[i].1);
        }
        i = i + 1;
    }
    None
}

fn last_value(t: &[(u32, u64)], pid: u32) -> (r: Option<u64>)
    ensures
        r == last_value_of(t@, pid),
{
    let mut i: usize = t.len();
    assert(t@.take(i as int) =~= t@);
    while i > 0
        invariant
            i <= t@.len(),
            last_value_of(t@, pid) == last_value_of(t@.take(i as int), pid),
        decreases i,
    {
        assert(t@.take(i as int).drop_last() =~= t@.take(i - 1));
        if t[i - 1].0 == pid {
            return Some(t[i - 1].1);
        }
        i = i - 1;
    }
    None
}

fn total(t: &[(u32, u64)], pids: &[u32], first: bool) -> (r: Option<u64>)
    ensures
        r == bounded_total(t@, pids@, first),
{
    let mut acc: u64 = 0;
    let mut i: usize = 0;
    while i < pids.len()
        invariant
            i <= pids@.len(),
            acc == total_of(t@, pids@.take(i as int), first),
        decreases pids@.len() - i,
    {
        assert(pids@.take(i + 1).drop_last() =~= pids@.take(i as int));
        let v = if first {
            first_value(t, pids[i])
        } else {
            last_value(t, pids[i])
        };
        let x: u64 = match v {
            Some(x) => x,
            None => 0,
        };
        match acc.checked_add(x) {
            Some(n) => acc = n,
            None => {
                proof {
                    lemma_total_monotone(t@, pids@, first, i + 1);
                }
                return None;
            },
        }
        i = i + 1;
    }
    assert(pids@.take(pids@.len() as int) =~= pids@);
    Some(acc)
}

/// The resident memory of processes `pids` in KB: the sum of the first
/// (pid, rss) entry of each in `rss_table`, `None` when it does not fit in a
/// `u64`.
pub fn rss_total(pids: &[u32], rss_table: &[(u32, u64)]) -> (r: Option<u64>)
    ensures
        r == bounded_total(rss_table@, pids@, true),
{
    total(rss_table, pids, true)
}

/// The GPU memory of processes `pids` in MB: the sum of the last entry of
/// each in the GPU table, `None` when it does not fit in a `u64`.
pub fn gpu_total(pids: &[u32], gpu: &[GpuProcessInfo]) -> (r: Option<u64>)
    ensures
        r == bounded_total(gpu@.map_values(|g: GpuProcessInfo| (g.pid, g.gpu_memory_mb)), pids@, false),
{
    let mut t: Vec<(u32, u64)> = Vec::new();
    let mut i: usize = 0;
    while i < gpu.len()
        invariant
            i <= gpu@.len(),
            t@ == gpu@.take(i as int).map_values(|g: GpuProcessInfo| (g.pid, g.gpu_memory_mb)),
        decreases gpu@.len() - i,
    {
        t.push((gpu[i].pid, gpu[i].gpu_memory_mb));
        assert(gpu@.take(i + 1).map_values(|g: GpuProcessInfo| (g.pid, g.gpu_memory_mb)) =~= t@);
        i = i + 1;
    }
    assert(gpu@.take(gpu@.len() as int) =~= gpu@);
    total(t.as_slice(), pids, false)
}

} // verus!
