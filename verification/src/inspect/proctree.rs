//! The process table (`ps -eo pid,ppid,comm`) and the trees of processes that
//! run below a pane's shell.
use vstd::prelude::*;

use crate::inspect::ports::body_lines;
use crate::text::{
    chars_of, join_words, lines_of, parse_bounded, parse_unsigned, split_lines, split_words,
    string_of, words,
};

verus! {

/// Information about a single process from the system process table.
pub struct ProcessInfo {
    pub pid: u32,
    pub ppid: u32,
    pub command: String,
}

/// The value of a [`ProcessInfo`].
pub struct ProcessView {
    pub pid: u32,
    pub ppid: u32,
    pub command: Seq<char>,
}

impl View for ProcessInfo {
    type V = ProcessView;

    open spec fn view(&self) -> ProcessView {
        ProcessView { pid: self.pid, ppid: self.ppid, command: self.command@ }
    }
}

/// Recursive tree of processes, rooted at a given PID.
pub struct ProcessTree {
    pub pid: u32,
    pub command: String,
    pub children: Vec<ProcessTree>,
}

/// The process described by one line of `ps` output: a decimal PID, a decimal
/// parent PID, and a non-empty command whose words are rejoined by single spaces.
pub open spec fn process_of_line(l: Seq<char>) -> Option<ProcessView> {
    let ws = words(l);
    if ws.len() < 2 {
        None
    } else {
        match (parse_unsigned(ws[0], u32::MAX as nat), parse_unsigned(ws[1], u32::MAX as nat)) {
            (Some(pid), Some(ppid)) => {
                let command = join_words(ws.skip(2));
                if command.len() == 0 {
                    None
                } else {
                    Some(ProcessView { pid: pid as u32, ppid: ppid as u32, command })
                }
            },
            _ => None,
        }
    }
}

/// The processes read from lines of `ps` output, in order.
pub open spec fn processes_of(ls: Seq<Seq<char>>) -> Seq<ProcessView>
    decreases ls.len(),
{
    if ls.len() == 0 {
        seq![]
    } else {
        processes_of(ls.drop_last()) + match process_of_line(ls.last()) {
            Some(p) => seq![p],
            None => seq![],
        }
    }
}

fn join_spaced(ws: &Vec<Vec<char>>, from: usize) -> (r: Vec<char>)
    requires
        from <= ws@.len(),
    ensures
        r@ == join_words(ws@.map_values(|w: Vec<char>| w@).skip(from as int)),
{
    let ghost all = ws@.map_values(|w: Vec<char>| w@);
    let mut out: Vec<char> = Vec::new();
    let mut i: usize = from;
    assert(all.skip(from as int).take(0) =~= Seq::<Seq<char>>::empty());
    while i < ws.len()
        invariant
            from <= i <= ws@.len(),
            all == ws@.map_values(|w: Vec<char>| w@),
            out@ == join_words(all.skip(from as int).take(i - from)),
        decreases ws@.len() - i,
    {
        let ghost part = all.skip(from as int).take(i + 1 - from);
        assert(part.drop_last() =~= all.skip(from as int).take(i - from));
        assert(part.last() == ws@[i as int]@);
        if i > from {
            out.push(' ');
        }
        let w = ws[i].as_slice();
        let mut k: usize = 0;
        let ghost start = out@;
        while k < w.len()
            invariant
                k <= w@.len(),
                out@ == start + w@.take(k as int),
            decreases w@.len() - k,
        {
            out.push(w[k]);
            assert(start + w@.take(k as int) + seq![w@[k as int]] =~= start + w@.take(k + 1));
            k = k + 1;
        }
        assert(w@.take(w@.len() as int) =~= w@);
        assert(out@ =~= join_words(part));
        i = i + 1;
    }
    assert(all.skip(from as int).take(ws@.len() - from) =~= all.skip(from as int));
    out
}

fn process_from_line(line: &[char]) -> (r: Option<ProcessInfo>)
    ensures
        match process_of_line(line@) {
            Some(p) => r matches Some(x) && x@ == p,
            None => r is None,
        },
{
    let ws = split_words(line);
    if ws.len() < 2 {
        return None;
    }
    assert(ws@[0]@ == words(line@)[0]);
    assert(ws@[1]@ == words(line@)[1]);
    let pid = match parse_bounded(ws[0].as_slice(), 0xffff_ffff) {
        Some(p) => p as u32,
        None => return None,
    };
    let ppid = match parse_bounded(ws[1].as_slice(), 0xffff_ffff) {
        Some(p) => p as u32,
        None => return None,
    };
    let command = join_spaced(&ws, 2);
    assert(ws@.map_values(|w: Vec<char>| w@) =~= words(line@));
    if command.len() == 0 {
        return None;
    }
    Some(ProcessInfo { pid, ppid, command: string_of(command.as_slice()) })
}

/// Parse `ps -eo pid,ppid,comm` output into a process table: the header line
/// is skipped, and so is every line that does not describe a process.
pub fn parse_process_table(output: &str) -> (r: Vec<ProcessInfo>)
    ensures
        r@.map_values(|p: ProcessInfo| p@) == processes_of(body_lines(output@)),
{
    let text = chars_of(output);
    let lines = split_lines(text.as_slice());
    let ghost all = lines_of(output@);
    let ghost ls = body_lines(output@);
    let mut r: Vec<ProcessInfo> = Vec::new();
    if lines.len() == 0 {
        return r;
    }
    let mut i: usize = 1;
    assert(ls.take(0) =~= Seq::<Seq<char>>::empty());
    while i < lines.len()
        invariant
            1 <= i <= lines@.len(),
            lines@.len() == all.len(),
            all.len() > 0,
            ls == all.skip(1),
            forall|k: int| 0 <= k < lines@.len() ==> #[trigger] lines@[k]@ == all[k],
            r@.map_values(|p: ProcessInfo| p@) == processes_of(ls.take(i - 1)),
        decreases lines@.len() - i,
    {
        proof {
            assert(ls.take(i as int).drop_last() =~= ls.take(i - 1));
            assert(ls.take(i as int).last() == all[i as int]);
            assert(lines@[i as int]@ == all[i as int]);
        }
        match process_from_line(lines[i].as_slice()) {
            Some(p) => {
                r.push(p);
            },
            None => {},
        }
        assert(r@.map_values(|p: ProcessInfo| p@) =~= processes_of(ls.take(i as int)));
        i = i + 1;
    }
    assert(ls.take(lines@.len() - 1) =~= ls);
    r
}

// ---------------------------------------------------------------------------
// Process trees
// ---------------------------------------------------------------------------

/// The entries of `t` whose parent is `root`, in table order.
pub open spec fn children_of(t: Seq<ProcessView>, root: u32) -> Seq<ProcessView>
    decreases t.len(),
{
    if t.len() == 0 {
        seq![]
    } else {
        children_of(t.drop_last(), root) + if t.last().ppid == root {
            seq![t.last()]
        } else {
            seq![]
        }
    }
}

/// The PIDs one generation below the PIDs `s`.
pub open spec fn next_generation(t: Seq<ProcessView>, s: Set<u32>) -> Set<u32> {
    Set::new(|p: u32| exists|i: int| 0 <= i < t.len() && s.contains(t[i].ppid) && #[trigger] t[i].pid == p)
}

/// The PIDs `n` generations below `root`.
pub open spec fn generation(t: Seq<ProcessView>, root: u32, n: nat) -> Set<u32>
    decreases n,
{
    if n == 0 {
        set![root]
    } else {
        next_generation(t, generation(t, root, (n - 1) as nat))
    }
}

/// The descendants of `root` form a finite tree: no chain of parent links
/// below `root` is longer than the table, so none of them runs in a circle.
pub open spec fn tree_is_finite(t: Seq<ProcessView>, root: u32) -> bool {
    generation(t, root, t.len() + 1) =~= Set::<u32>::empty()
}

/// `f` is the forest of processes below `root`: one tree per child of `root`,
/// in table order, each with the child's PID and command and, recursively,
/// the forest below the child.
pub open spec fn is_forest_of(t: Seq<ProcessView>, root: u32, f: Seq<ProcessTree>) -> bool
    decreases f,
{
    let c = children_of(t, root);
    &&& f.len() == c.len()
    &&& forall|k: int|
        0 <= k < f.len() ==> {
            &&& #[trigger] f[k].pid == c[k].pid
            &&& f[k].command@ == c[k].command
            &&& is_forest_of(t, f[k].pid, f[k].children@)
        }
}

proof fn lemma_next_generation_monotone(t: Seq<ProcessView>, a: Set<u32>, b: Set<u32>)
    requires
        a.subset_of(b),
    ensures
        next_generation(t, a).subset_of(next_generation(t, b)),
{
    assert forall|p: u32| next_generation(t, a).contains(p) implies next_generation(t, b).contains(p) by {
        let i = choose|i: int| 0 <= i < t.len() && a.contains(t[i].ppid) && #[trigger] t[i].pid == p;
        assert(b.contains(t[i].ppid));
    }
}

proof fn lemma_child_generation(t: Seq<ProcessView>, root: u32, i: int, k: nat)
    requires
        0 <= i < t.len(),
        t[i].ppid == root,
    ensures
        generation(t, t[i].pid, k).subset_of(generation(t, root, k + 1)),
    decreases k,
{
    if k == 0 {
        assert(generation(t, root, 0) == set![root]);
        assert(generation(t, root, 1).contains(t[i].pid));
    } else {
        lemma_child_generation(t, root, i, (k - 1) as nat);
        lemma_next_generation_monotone(
            t,
            generation(t, t[i].pid, (k - 1) as nat),
            generation(t, root, k),
        );
    }
}

#[verifier::spinoff_prover]
fn forest_below(root: u32, table: &[ProcessInfo], Ghost(depth): Ghost<nat>) -> (r: Vec<ProcessTree>)
    requires
        generation(table@.map_values(|p: ProcessInfo| p@), root, depth) =~= Set::<u32>::empty(),
    ensures
        is_forest_of(table@.map_values(|p: ProcessInfo| p@), root, r@),
    decreases depth,
{
    let ghost t = table@.map_values(|p: ProcessInfo| p@);
    proof {
        if depth == 0 {
            assert(generation(t, root, 0).contains(root));
        }
    }
    let mut r: Vec<ProcessTree> = Vec::new();
    let mut i: usize = 0;
    assert(t.take(0) =~= Seq::<ProcessView>::empty());
    while i < table.len()
        invariant
            i <= table@.len(),
            depth > 0,
            t == table@.map_values(|p: ProcessInfo| p@),
            generation(t, root, depth) =~= Set::<u32>::empty(),
            r@.len() == children_of(t.take(i as int), root).len(),
            forall|k: int|
                0 <= k < r@.len() ==> {
                    &&& #[trigger] r@[k].pid == children_of(t.take(i as int), root)[k].pid
                    &&& r@[k].command@ == children_of(t.take(i as int), root)[k].command
                    &&& is_forest_of(t, r@[k].pid, r@[k].children@)
                },
        decreases table@.len() - i,
    {
        let ghost c0 = children_of(t.take(i as int), root);
        assert(t.take(i + 1).drop_last() =~= t.take(i as int));
        assert(t.take(i + 1).last() == t[i as int]);
        if table[i].ppid == root {
            proof {
                lemma_child_generation(t, root, i as int, (depth - 1) as nat);
                assert(generation(t, t[i as int].pid, (depth - 1) as nat) =~= Set::<u32>::empty());
            }
            let children = forest_below(table[i].pid, table, Ghost((depth - 1) as nat));
            let node = ProcessTree {
                pid: table[i].pid,
                command: string_of(chars_of(table[i].command.as_str()).as_slice()),
                children,
            };
            r.push(node);
            assert(children_of(t.take(i + 1), root) == c0.push(t[i as int]));
        } else {
            assert(children_of(t.take(i + 1), root) =~= c0);
        }
        i = i + 1;
    }
    assert(t.take(table@.len() as int) =~= t);
    assert(children_of(t.take(table@.len() as int), root) == children_of(t, root));
    assert(is_forest_of(t, root, r@));
    r
}

/// Build the forest of processes below `root_pid` from a process table.
pub fn build_tree(root_pid: u32, table: &[ProcessInfo]) -> (r: Vec<ProcessTree>)
    requires
        tree_is_finite(table@.map_values(|p: ProcessInfo| p@), root_pid),
    ensures
        is_forest_of(table@.map_values(|p: ProcessInfo| p@), root_pid, r@),
{
    forest_below(root_pid, table, Ghost((table@.len() + 1) as nat))
}

proof fn lemma_generation_stays_empty(t: Seq<ProcessView>, root: u32, n: nat, m: nat)
    requires
        n <= m,
        generation(t, root, n) =~= Set::<u32>::empty(),
    ensures
        generation(t, root, m) =~= Set::<u32>::empty(),
    decreases m - n,
{
    if n < m {
        lemma_generation_stays_empty(t, root, n, (m - 1) as nat);
        assert forall|p: u32| !generation(t, root, m).contains(p) by {
            if generation(t, root, m).contains(p) {
                let i = choose|i: int|
                    0 <= i < t.len() && generation(t, root, (m - 1) as nat).contains(t[i].ppid)
                        && #[trigger] t[i].pid == p;
                assert(generation(t, root, (m - 1) as nat).contains(t[i].ppid));
            }
        }
    }
}

fn holds_pid(v: &Vec<u32>, x: u32) -> (b: bool)
    ensures
        b == v@.contains(x),
{
    let mut i: usize = 0;
    while i < v.len()
        invariant
            i <= v@.len(),
            forall|k: int| 0 <= k < i ==> v@[k] != x,
        decreases v@.len() - i,
    {
        if v[i] == x {
            return true;
        }
        i = i + 1;
    }
    false
}

#[verifier::spinoff_prover]
fn next_frontier(table: &[ProcessInfo], frontier: &Vec<u32>) -> (r: Vec<u32>)
    ensures
        forall|p: u32|
            #![trigger r@.contains(p)]
            r@.contains(p) <==> next_generation(
                table@.map_values(|q: ProcessInfo| q@),
                Set::new(|x: u32| frontier@.contains(x)),
            ).contains(p),
{
    let ghost t = table@.map_values(|q: ProcessInfo| q@);
    let ghost s = Set::new(|x: u32| frontier@.contains(x));
    let mut r: Vec<u32> = Vec::new();
    let mut i: usize = 0;
    while i < table.len()
        invariant
            i <= table@.len(),
            t == table@.map_values(|q: ProcessInfo| q@),
            s == Set::new(|x: u32| frontier@.contains(x)),
            forall|p: u32|
                #![trigger r@.contains(p)]
                r@.contains(p) <==> exists|j: int|
                    0 <= j < i && s.contains(t[j].ppid) && #[trigger] t[j].pid == p,
        decreases table@.len() - i,
    {
        let ghost before = r@;
        if holds_pid(frontier, table[i].ppid) {
            r.push(table[i].pid);
            assert forall|p: u32| #![trigger r@.contains(p)] r@.contains(p) <==> exists|j: int|
                0 <= j < i + 1 && s.contains(t[j].ppid) && #[trigger] t[j].pid == p by {
                if r@.contains(p) {
                    let k = choose|k: int| 0 <= k < r@.len() && r@[k] == p;
                    if k < before.len() {
                        assert(before.contains(p));
                    } else {
                        assert(t[i as int].pid == p);
                    }
                }
                if exists|j: int| 0 <= j < i + 1 && s.contains(t[j].ppid) && #[trigger] t[j].pid == p {
                    let j = choose|j: int| 0 <= j < i + 1 && s.contains(t[j].ppid) && #[trigger] t[j].pid == p;
                    if j < i {
                        assert(before.contains(p));
                        let k = choose|k: int| 0 <= k < before.len() && before[k] == p;
                        assert(r@[k] == p);
                    } else {
                        assert(r@[before.len() as int] == p);
                    }
                }
            }
        } else {
            assert forall|p: u32| #![trigger r@.contains(p)] r@.contains(p) <==> exists|j: int|
                0 <= j < i + 1 && s.contains(t[j].ppid) && #[trigger] t[j].pid == p by {
                if exists|j: int| 0 <= j < i + 1 && s.contains(t[j].ppid) && #[trigger] t[j].pid == p {
                    let j = choose|j: int| 0 <= j < i + 1 && s.contains(t[j].ppid) && #[trigger] t[j].pid == p;
                    assert(j != i);
                }
            }
        }
        i = i + 1;
    }
    r
}

/// Whether the processes below `root_pid` form a finite tree (see
/// [`tree_is_finite`]), the condition under which [`build_tree`] returns.
pub fn tree_is_finite_in(root_pid: u32, table: &[ProcessInfo]) -> (b: bool)
    ensures
        b == tree_is_finite(table@.map_values(|p: ProcessInfo| p@), root_pid),
{
    let ghost t = table@.map_values(|p: ProcessInfo| p@);
    let mut frontier: Vec<u32> = Vec::new();
    frontier.push(root_pid);
    assert(Set::new(|x: u32| frontier@.contains(x)) =~= generation(t, root_pid, 0)) by {
        assert forall|x: u32| frontier@.contains(x) <==> x == root_pid by {
            if frontier@.contains(x) {
                let k = choose|k: int| 0 <= k < frontier@.len() && frontier@[k] == x;
            }
            if x == root_pid {
                assert(frontier@[0] == x);
            }
        }
    }
    let mut n: usize = 0;
    while n < table.len()
        invariant
            n <= table@.len(),
            t == table@.map_values(|p: ProcessInfo| p@),
            Set::new(|x: u32| frontier@.contains(x)) =~= generation(t, root_pid, n as nat),
        decreases table@.len() - n,
    {
        if frontier.len() == 0 {
            proof {
                assert(generation(t, root_pid, n as nat) =~= Set::<u32>::empty());
                lemma_generation_stays_empty(t, root_pid, n as nat, (t.len() + 1) as nat);
            }
            return true;
        }
        let next = next_frontier(table, &frontier);
        proof {
            assert(Set::new(|x: u32| next@.contains(x)) =~= generation(t, root_pid, (n + 1) as nat));
        }
        frontier = next;
        n = n + 1;
    }
    let last = next_frontier(table, &frontier);
    assert(Set::new(|x: u32| last@.contains(x)) =~= generation(t, root_pid, (t.len() + 1) as nat));
    if last.len() == 0 {
        assert(Set::new(|x: u32| last@.contains(x)) =~= Set::<u32>::empty());
        true
    } else {
        assert(Set::new(|x: u32| last@.contains(x)).contains(last@[0]));
        false
    }
}

/// The PIDs of a forest in pre-order: each tree's root before its children.
pub open spec fn pids_of(f: Seq<ProcessTree>) -> Seq<u32>
    decreases f,
{
    if f.len() == 0 {
        seq![]
    } else {
        pids_of(f.drop_last()) + seq![f.last().pid] + pids_of(f.last().children@)
    }
}

/// Collect all PIDs of a process forest, each tree's root before its children.
pub fn collect_pids(tree: &[ProcessTree]) -> (r: Vec<u32>)
    ensures
        r@ == pids_of(tree@),
    decreases tree@,
{
    let mut pids: Vec<u32> = Vec::new();
    let mut i: usize = 0;
    assert(tree@.take(0) =~= Seq::<ProcessTree>::empty());
    while i < tree.len()
        invariant
            i <= tree@.len(),
            pids@ == pids_of(tree@.take(i as int)),
        decreases tree@.len() - i,
    {
        let node = &tree[i];
        pids.push(node.pid);
        proof {
            assert(decreases_to!(tree@ => tree@[i as int]));
            assert(decreases_to!(tree@[i as int] => tree@[i as int].children));
        }
        let below = collect_pids(node.children.as_slice());
        let mut k: usize = 0;
        let ghost start = pids@;
        while k < below.len()
            invariant
                k <= below@.len(),
                pids@ == start + below@.take(k as int),
            decreases below@.len() - k,
        {
            pids.push(below[k]);
            assert(start + below@.take(k as int) + seq![below@[k as int]] =~= start + below@.take(k + 1));
            k = k + 1;
        }
        assert(below@.take(below@.len() as int) =~= below@);
        assert(tree@.take(i + 1).drop_last() =~= tree@.take(i as int));
        assert(tree@.take(i + 1).last() == tree@[i as int]);
        i = i + 1;
    }
    assert(tree@.take(tree@.len() as int) =~= tree@);
    pids
}

// ---------------------------------------------------------------------------
// The collected PIDs are the descendants
// ---------------------------------------------------------------------------

/// Every tree of `f` has a PID that is a child of `root` in the table, and the
/// same holds below it.
pub open spec fn nodes_below(t: Seq<ProcessView>, root: u32, f: Seq<ProcessTree>) -> bool
    decreases f,
{
    forall|k: int|
        0 <= k < f.len() ==> {
            &&& exists|i: int| 0 <= i < t.len() && t[i].ppid == root && #[trigger] t[i].pid == f[k].pid
            &&& nodes_below(t, (#[trigger] f[k]).pid, f[k].children@)
        }
}

#[verifier::spinoff_prover]
proof fn lemma_children_in_table(t: Seq<ProcessView>, root: u32)
    ensures
        forall|k: int|
            0 <= k < children_of(t, root).len() ==> exists|i: int|
                0 <= i < t.len() && t[i] == #[trigger] children_of(t, root)[k] && t[i].ppid == root,
    decreases t.len(),
{
    if t.len() > 0 {
        let p = t.drop_last();
        lemma_children_in_table(p, root);
        let prev = children_of(p, root);
        let c = children_of(t, root);
        if t.last().ppid == root {
            assert(c == prev + seq![t.last()]);
        } else {
            assert(c == prev + Seq::<ProcessView>::empty());
            assert(c =~= prev);
        }
        assert forall|k: int| 0 <= k < c.len() implies exists|i: int|
            0 <= i < t.len() && t[i] == #[trigger] c[k] && t[i].ppid == root by {
            if k < prev.len() {
                assert(c[k] == prev[k]);
                let i = choose|i: int| 0 <= i < p.len() && p[i] == #[trigger] prev[k] && p[i].ppid == root;
                assert(t[i] == p[i]);
                assert(0 <= i < t.len() && t[i] == c[k] && t[i].ppid == root);
            } else {
                let i = t.len() - 1;
                assert(c[k] == t.last());
                assert(t[i] == t.last());
                assert(0 <= i < t.len() && t[i] == c[k] && t[i].ppid == root);
            }
        }
    }
}

#[verifier::spinoff_prover]
proof fn lemma_forest_nodes_below(t: Seq<ProcessView>, root: u32, f: Seq<ProcessTree>)
    requires
        is_forest_of(t, root, f),
    ensures
        nodes_below(t, root, f),
    decreases f,
{
    lemma_children_in_table(t, root);
    let c = children_of(t, root);
    assert forall|k: int| 0 <= k < f.len() implies {
        &&& exists|i: int| 0 <= i < t.len() && t[i].ppid == root && #[trigger] t[i].pid == f[k].pid
        &&& nodes_below(t, (#[trigger] f[k]).pid, f[k].children@)
    } by {
        let i = choose|i: int| 0 <= i < t.len() && t[i] == #[trigger] c[k] && t[i].ppid == root;
        assert(t[i].pid == f[k].pid);
        assert(decreases_to!(f => f[k]));
        lemma_forest_nodes_below(t, f[k].pid, f[k].children@);
    }
}

#[verifier::spinoff_prover]
proof fn lemma_pids_descend(t: Seq<ProcessView>, root: u32, f: Seq<ProcessTree>)
    requires
        nodes_below(t, root, f),
    ensures
        forall|p: u32|
            pids_of(f).contains(p) ==> exists|n: nat|
                n >= 1 && #[trigger] generation(t, root, n).contains(p),
    decreases f,
{
    if f.len() > 0 {
        let g = f.drop_last();
        let x = f.last();
        assert(nodes_below(t, root, g)) by {
            assert forall|k: int| 0 <= k < g.len() implies {
                &&& exists|i: int|
                    0 <= i < t.len() && t[i].ppid == root && #[trigger] t[i].pid == g[k].pid
                &&& nodes_below(t, (#[trigger] g[k]).pid, g[k].children@)
            } by {
                assert(g[k] == f[k]);
            }
        }
        assert(f[f.len() - 1] == x);
        let i = choose|i: int| 0 <= i < t.len() && t[i].ppid == root && #[trigger] t[i].pid == x.pid;
        lemma_pids_descend(t, root, g);
        lemma_pids_descend(t, x.pid, x.children@);
        assert forall|p: u32| pids_of(f).contains(p) implies exists|n: nat|
            n >= 1 && #[trigger] generation(t, root, n).contains(p) by {
            let a = pids_of(g);
            let c = pids_of(x.children@);
            assert(pids_of(f) == a + seq![x.pid] + c);
            let idx = choose|idx: int| 0 <= idx < pids_of(f).len() && pids_of(f)[idx] == p;
            if idx < a.len() {
                assert(a[idx] == p);
                assert(a.contains(p));
            } else if idx == a.len() {
                assert(p == x.pid);
                assert(generation(t, root, 0) == set![root]);
                assert(generation(t, root, 1).contains(p));
            } else {
                assert(c[idx - a.len() - 1] == p);
                assert(c.contains(p));
                let m = choose|m: nat| m >= 1 && #[trigger] generation(t, x.pid, m).contains(p);
                lemma_child_generation(t, root, i, m);
                assert(generation(t, root, m + 1).contains(p));
            }
        }
    }
}

#[verifier::spinoff_prover]
proof fn lemma_generation_step(t: Seq<ProcessView>, root: u32, n: nat, p: u32)
    requires
        generation(t, root, n + 1).contains(p),
    ensures
        exists|i: int|
            0 <= i < t.len() && t[i].ppid == root && #[trigger] generation(t, t[i].pid, n).contains(
                p,
            ),
    decreases n,
{
    if n == 0 {
        let i = choose|i: int|
            0 <= i < t.len() && generation(t, root, 0).contains(t[i].ppid) && #[trigger] t[i].pid
                == p;
        assert(generation(t, t[i].pid, 0).contains(p));
    } else {
        let j = choose|j: int|
            0 <= j < t.len() && generation(t, root, n).contains(t[j].ppid) && #[trigger] t[j].pid
                == p;
        let q = t[j].ppid;
        lemma_generation_step(t, root, (n - 1) as nat, q);
        let i = choose|i: int|
            0 <= i < t.len() && t[i].ppid == root && #[trigger] generation(
                t,
                t[i].pid,
                (n - 1) as nat,
            ).contains(q);
        assert(generation(t, t[i].pid, n).contains(p));
    }
}

#[verifier::spinoff_prover]
proof fn lemma_child_listed(t: Seq<ProcessView>, root: u32, i: int)
    requires
        0 <= i < t.len(),
        t[i].ppid == root,
    ensures
        exists|k: int| 0 <= k < children_of(t, root).len() && #[trigger] children_of(t, root)[k] == t[i],
    decreases t.len(),
{
    let c = children_of(t, root);
    if i == t.len() - 1 {
        assert(c[c.len() - 1] == t[i]);
    } else {
        lemma_child_listed(t.drop_last(), root, i);
        let prev = children_of(t.drop_last(), root);
        let k = choose|k: int| 0 <= k < prev.len() && #[trigger] prev[k] == t.drop_last()[i];
        assert(c[k] == prev[k]);
    }
}

#[verifier::spinoff_prover]
proof fn lemma_pids_contain_tree(f: Seq<ProcessTree>, k: int)
    requires
        0 <= k < f.len(),
    ensures
        pids_of(f).contains(f[k].pid),
        forall|p: u32| pids_of(f[k].children@).contains(p) ==> #[trigger] pids_of(f).contains(p),
    decreases f,
{
    let g = f.drop_last();
    let x = f.last();
    let a = pids_of(g);
    let c = pids_of(x.children@);
    assert(pids_of(f) == a + seq![x.pid] + c);
    if k < f.len() - 1 {
        assert(f[k] == g[k]);
        lemma_pids_contain_tree(g, k);
        let idx = choose|idx: int| 0 <= idx < a.len() && a[idx] == f[k].pid;
        assert(pids_of(f)[idx] == f[k].pid);
        assert forall|p: u32| pids_of(f[k].children@).contains(p) implies #[trigger] pids_of(
            f,
        ).contains(p) by {
            assert(a.contains(p));
            let j = choose|j: int| 0 <= j < a.len() && a[j] == p;
            assert(pids_of(f)[j] == p);
        }
    } else {
        assert(pids_of(f)[a.len() as int] == x.pid);
        assert forall|p: u32| pids_of(f[k].children@).contains(p) implies #[trigger] pids_of(
            f,
        ).contains(p) by {
            let j = choose|j: int| 0 <= j < c.len() && c[j] == p;
            assert(pids_of(f)[a.len() + 1 + j] == p);
        }
    }
}

#[verifier::spinoff_prover]
proof fn lemma_descendants_collected(t: Seq<ProcessView>, root: u32, f: Seq<ProcessTree>, n: nat, p: u32)
    requires
        is_forest_of(t, root, f),
        n >= 1,
        generation(t, root, n).contains(p),
    ensures
        pids_of(f).contains(p),
    decreases n,
{
    lemma_generation_step(t, root, (n - 1) as nat, p);
    let i = choose|i: int|
        0 <= i < t.len() && t[i].ppid == root && #[trigger] generation(t, t[i].pid, (n - 1) as nat).contains(p);
    lemma_child_listed(t, root, i);
    let c = children_of(t, root);
    let k = choose|k: int| 0 <= k < c.len() && #[trigger] c[k] == t[i];
    assert(f[k].pid == c[k].pid);
    lemma_pids_contain_tree(f, k);
    if n == 1 {
        assert(generation(t, t[i].pid, 0) == set![t[i].pid]);
    } else {
        lemma_descendants_collected(t, f[k].pid, f[k].children@, (n - 1) as nat, p);
    }
}

/// The PIDs collected from the forest below `root` are exactly the processes
/// one or more generations below `root`: every descendant, and nothing else.
pub proof fn lemma_forest_pids_are_descendants(t: Seq<ProcessView>, root: u32, f: Seq<ProcessTree>)
    requires
        is_forest_of(t, root, f),
    ensures
        forall|p: u32|
            pids_of(f).contains(p) <==> exists|n: nat|
                n >= 1 && #[trigger] generation(t, root, n).contains(p),
{
    lemma_forest_nodes_below(t, root, f);
    lemma_pids_descend(t, root, f);
    assert forall|p: u32| (exists|n: nat| n >= 1 && #[trigger] generation(t, root, n).contains(p))
        implies pids_of(f).contains(p) by {
        let n = choose|n: nat| n >= 1 && #[trigger] generation(t, root, n).contains(p);
        lemma_descendants_collected(t, root, f, n, p);
    }
}

} // verus!
