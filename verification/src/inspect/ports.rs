//! Listening TCP ports, as `lsof -i -P -n -sTCP:LISTEN` lists them.
use std::collections::HashMap;
use vstd::prelude::*;

use crate::text::{
    chars_of, lines_of, parse_bounded, parse_unsigned, rsplit_once, rsplit_once_on, split_lines,
    split_words, string_of, words,
};

use crate::config::store::{
    lemma_text_le_antisym, lemma_text_le_refl, lemma_text_le_total, lemma_text_le_trans, text_le,
    text_le_exec,
};
use crate::tmux::types::{TmuxWindow, TmuxWindowView};

verus! {

/// A listening TCP port from lsof output.
pub struct ListeningPort {
    pub pid: u32,
    pub port: u16,
    pub address: String,
    pub command: String,
}

/// The value of a [`ListeningPort`].
pub struct ListeningPortView {
    pub pid: u32,
    pub port: u16,
    pub address: Seq<char>,
    pub command: Seq<char>,
}

impl View for ListeningPort {
    type V = ListeningPortView;

    open spec fn view(&self) -> ListeningPortView {
        ListeningPortView {
            pid: self.pid,
            port: self.port,
            address: self.address@,
            command: self.command@,
        }
    }
}

/// The port described by one line of lsof output: ten or more whitespace
/// separated columns `COMMAND PID USER FD TYPE DEVICE SIZE/OFF NODE NAME
/// (STATE)`, a decimal PID, and a second-to-last column `address:port`.
pub open spec fn port_of_line(l: Seq<char>) -> Option<ListeningPortView> {
    let cols = words(l);
    if cols.len() < 10 {
        None
    } else {
        match parse_unsigned(cols[1], u32::MAX as nat) {
            None => None,
            Some(pid) => match rsplit_once(cols[cols.len() - 2], ':') {
                None => None,
                Some((address, port_text)) => match parse_unsigned(port_text, u16::MAX as nat) {
                    None => None,
                    Some(port) => Some(
                        ListeningPortView {
                            pid: pid as u32,
                            port: port as u16,
                            address,
                            command: cols[0],
                        },
                    ),
                },
            },
        }
    }
}

/// The ports read from lines of lsof output, in order.
pub open spec fn ports_of(ls: Seq<Seq<char>>) -> Seq<ListeningPortView>
    decreases ls.len(),
{
    if ls.len() == 0 {
        seq![]
    } else {
        ports_of(ls.drop_last()) + match port_of_line(ls.last()) {
            Some(p) => seq![p],
            None => seq![],
        }
    }
}

/// The lines of a listing after its header line.
pub open spec fn body_lines(output: Seq<char>) -> Seq<Seq<char>> {
    if lines_of(output).len() == 0 {
        seq![]
    } else {
        lines_of(output).skip(1)
    }
}

fn port_from_line(line: &[char]) -> (r: Option<ListeningPort>)
    ensures
        match port_of_line(line@) {
            Some(p) => r matches Some(x) && x@ == p,
            None => r is None,
        },
{
    let cols = split_words(line);
    if cols.len() < 10 {
        return None;
    }
    assert(cols@[1]@ == words(line@)[1]);
    let pid = match parse_bounded(cols[1].as_slice(), 0xffff_ffff) {
        Some(p) => p as u32,
        None => return None,
    };
    let last = cols.len() - 2;
    assert(cols@[last as int]@ == words(line@)[words(line@).len() - 2]);
    let (address, port_text) = match rsplit_once_on(cols[last].as_slice(), ':') {
        Some(pair) => pair,
        None => return None,
    };
    let port = match parse_bounded(port_text.as_slice(), 0xffff) {
        Some(p) => p as u16,
        None => return None,
    };
    assert(cols@[0]@ == words(line@)[0]);
    Some(
        ListeningPort {
            pid,
            port,
            address: string_of(address.as_slice()),
            command: string_of(cols[0].as_slice()),
        },
    )
}

/// Parse `lsof -i -P -n -sTCP:LISTEN` output into listening port entries: the
/// header line is skipped, and so is every line that does not describe a port.
pub fn parse_listening_ports(output: &str) -> (r: Vec<ListeningPort>)
    ensures
        r@.map_values(|p: ListeningPort| p@) == ports_of(body_lines(output@)),
{
    let text = chars_of(output);
    let lines = split_lines(text.as_slice());
    let ghost all = lines_of(output@);
    let ghost ls = body_lines(output@);
    let mut r: Vec<ListeningPort> = Vec::new();
    if lines.len() == 0 {
        return r;
    }
    let mut i: usize = 1;
    assert(ls.take(0) =~= Seq::<Seq<char>>::empty());
    while i < lines.len()
        invariant
            1 <= i <= lines@.len(),
            lines@.len() == all.len(),
            all.len() > 0,
            ls == all.skip(1),
            forall|k: int| 0 <= k < lines@.len() ==> #[trigger] lines@[k]@ == all[k],
            r@.map_values(|p: ListeningPort| p@) == ports_of(ls.take(i - 1)),
        decreases lines@.len() - i,
    {
        proof {
            assert(ls.take(i as int).drop_last() =~= ls.take(i - 1));
            assert(ls.take(i as int).last() == all[i as int]);
            assert(lines@[i as int]@ == all[i as int]);
        }
        match port_from_line(lines[i].as_slice()) {
            Some(p) => {
                r.push(p);
            },
            None => {},
        }
        assert(r@.map_values(|p: ListeningPort| p@) =~= ports_of(ls.take(i as int)));
        i = i + 1;
    }
    assert(ls.take(lines@.len() - 1) =~= ls);
    r
}

// ---------------------------------------------------------------------------
// Matching ports to sessions
// ---------------------------------------------------------------------------

/// The session and window a process runs in.
pub struct PidOwner {
    pub session_name: String,
    pub display_name: String,
    pub color: String,
    pub window_index: u32,
    pub window_name: String,
}

/// The value of a [`PidOwner`].
pub struct PidOwnerView {
    pub session_name: Seq<char>,
    pub display_name: Seq<char>,
    pub color: Seq<char>,
    pub window_index: u32,
    pub window_name: Seq<char>,
}

impl View for PidOwner {
    type V = PidOwnerView;

    open spec fn view(&self) -> PidOwnerView {
        PidOwnerView {
            session_name: self.session_name@,
            display_name: self.display_name@,
            color: self.color@,
            window_index: self.window_index,
            window_name: self.window_name@,
        }
    }
}

/// A listening port matched to a muster session.
pub struct MatchedPort {
    pub port: u16,
    pub address: String,
    pub pid: u32,
    pub command: String,
    pub session_name: String,
    pub display_name: String,
    pub color: String,
    pub window_index: u32,
    pub window_name: String,
}

/// The value of a [`MatchedPort`].
pub struct MatchedPortView {
    pub port: u16,
    pub address: Seq<char>,
    pub pid: u32,
    pub command: Seq<char>,
    pub session_name: Seq<char>,
    pub display_name: Seq<char>,
    pub color: Seq<char>,
    pub window_index: u32,
    pub window_name: Seq<char>,
}

impl View for MatchedPort {
    type V = MatchedPortView;

    open spec fn view(&self) -> MatchedPortView {
        MatchedPortView {
            port: self.port,
            address: self.address@,
            pid: self.pid,
            command: self.command@,
            session_name: self.session_name@,
            display_name: self.display_name@,
            color: self.color@,
            window_index: self.window_index,
            window_name: self.window_name@,
        }
    }
}

/// The owners recorded for the processes, keyed by PID, by value.
pub open spec fn owners_view(m: Map<u32, PidOwner>) -> Map<u32, PidOwnerView> {
    m.map_values(|o: PidOwner| o@)
}

/// A port matched with its owner.
pub open spec fn matched_with(p: ListeningPortView, o: PidOwnerView) -> MatchedPortView {
    MatchedPortView {
        port: p.port,
        address: p.address,
        pid: p.pid,
        command: p.command,
        session_name: o.session_name,
        display_name: o.display_name,
        color: o.color,
        window_index: o.window_index,
        window_name: o.window_name,
    }
}

/// Whether some match is for port `port` held by process `pid`.
pub open spec fn has_port_pid(ms: Seq<MatchedPortView>, port: u16, pid: u32) -> bool {
    exists|i: int| 0 <= i < ms.len() && (#[trigger] ms[i]).port == port && ms[i].pid == pid
}

/// The listening ports whose process has an owner, each matched with it, in
/// the order of the listing; of several rows for one port and process (a
/// process listening on both IPv4 and IPv6), only the first is kept.
pub open spec fn matched_of(ports: Seq<ListeningPortView>, owners: Map<u32, PidOwnerView>) -> Seq<
    MatchedPortView,
>
    decreases ports.len(),
{
    if ports.len() == 0 {
        seq![]
    } else {
        let prev = matched_of(ports.drop_last(), owners);
        let p = ports.last();
        if owners.contains_key(p.pid) && !has_port_pid(prev, p.port, p.pid) {
            prev.push(matched_with(p, owners[p.pid]))
        } else {
            prev
        }
    }
}

/// No two matches are for the same port and process.
pub open spec fn distinct_port_pids(ms: Seq<MatchedPortView>) -> bool {
    forall|i: int, j: int|
        0 <= i < j < ms.len() ==> !((#[trigger] ms[i]).port == (#[trigger] ms[j]).port && ms[i].pid
            == ms[j].pid)
}

/// Matching lists each (port, process) pair at most once.
pub proof fn lemma_matched_distinct(ports: Seq<ListeningPortView>, owners: Map<u32, PidOwnerView>)
    ensures
        distinct_port_pids(matched_of(ports, owners)),
    decreases ports.len(),
{
    if ports.len() > 0 {
        lemma_matched_distinct(ports.drop_last(), owners);
        let prev = matched_of(ports.drop_last(), owners);
        let p = ports.last();
        if owners.contains_key(p.pid) {
            if !has_port_pid(prev, p.port, p.pid) {
                let ms = prev.push(matched_with(p, owners[p.pid]));
                assert forall|i: int, j: int| 0 <= i < j < ms.len() implies !((#[trigger] ms[i]).port
                    == (#[trigger] ms[j]).port && ms[i].pid == ms[j].pid) by {
                    if j == prev.len() {
                        assert(ms[i] == prev[i]);
                        if ms[i].port == p.port && ms[i].pid == p.pid {
                            assert(has_port_pid(prev, p.port, p.pid));
                        }
                    } else {
                        assert(ms[i] == prev[i] && ms[j] == prev[j]);
                    }
                }
            }
        }
    }
}

fn seen_port_pid(r: &Vec<MatchedPort>, port: u16, pid: u32) -> (b: bool)
    ensures
        b == has_port_pid(r@.map_values(|m: MatchedPort| m@), port, pid),
{
    let ghost rv = r@.map_values(|m: MatchedPort| m@);
    let mut i: usize = 0;
    while i < r.len()
        invariant
            i <= r@.len(),
            rv == r@.map_values(|m: MatchedPort| m@),
            forall|k: int| 0 <= k < i ==> !((#[trigger] rv[k]).port == port && rv[k].pid == pid),
        decreases r@.len() - i,
    {
        if r[i].port == port && r[i].pid == pid {
            assert(rv[i as int].port == port && rv[i as int].pid == pid);
            return true;
        }
        i = i + 1;
    }
    false
}

fn copy_text(s: &String) -> (r: String)
    ensures
        r@ == s@,
{
    string_of(chars_of(s.as_str()).as_slice())
}

/// Match listening ports to the sessions whose processes hold them, one match
/// per (port, process).
pub fn match_ports(listening: &[ListeningPort], owners: &HashMap<u32, PidOwner>) -> (r: Vec<
    MatchedPort,
>)
    ensures
        r@.map_values(|m: MatchedPort| m@) == matched_of(
            listening@.map_values(|p: ListeningPort| p@),
            owners_view(owners@),
        ),
        distinct_port_pids(r@.map_values(|m: MatchedPort| m@)),
{
    broadcast use vstd::std_specs::hash::group_hash_axioms;

    let ghost lv = listening@.map_values(|p: ListeningPort| p@);
    let ghost ov = owners_view(owners@);
    let mut r: Vec<MatchedPort> = Vec::new();
    let mut i: usize = 0;
    while i < listening.len()
        invariant
            i <= listening@.len(),
            lv == listening@.map_values(|p: ListeningPort| p@),
            ov == owners_view(owners@),
            r@.map_values(|m: MatchedPort| m@) == matched_of(lv.take(i as int), ov),
        decreases listening@.len() - i,
    {
        assert(lv.take(i + 1).drop_last() =~= lv.take(i as int));
        assert(lv.take(i + 1).last() == listening@[i as int]@);
        let lp = &listening[i];
        match owners.get(&lp.pid) {
            Some(o) => {
                if !seen_port_pid(&r, lp.port, lp.pid) {
                    let m = MatchedPort {
                        port: lp.port,
                        address: copy_text(&lp.address),
                        pid: lp.pid,
                        command: copy_text(&lp.command),
                        session_name: copy_text(&o.session_name),
                        display_name: copy_text(&o.display_name),
                        color: copy_text(&o.color),
                        window_index: o.window_index,
                        window_name: copy_text(&o.window_name),
                    };
                    let ghost before = r@.map_values(|m: MatchedPort| m@);
                    let ghost mv = m@;
                    r.push(m);
                    assert(r@.map_values(|m: MatchedPort| m@) =~= before.push(mv));
                }
            },
            None => {},
        }
        i = i + 1;
    }
    assert(lv.take(listening@.len() as int) =~= lv);
    proof {
        lemma_matched_distinct(lv, ov);
    }
    r
}

/// The owners after recording `o` for each of `pids` that has none yet: a
/// process that shows up under several panes keeps the first one recorded.
pub open spec fn owners_recorded(
    m: Map<u32, PidOwnerView>,
    pids: Seq<u32>,
    o: PidOwnerView,
) -> Map<u32, PidOwnerView> {
    Map::new(
        |k: u32| m.contains_key(k) || pids.contains(k),
        |k: u32|
            if m.contains_key(k) {
                m[k]
            } else {
                o
            },
    )
}

/// Record that the processes `pids` run in window `window_index` (named
/// `window_name`) of the session `session_name`, unless an owner is already
/// recorded for them.
pub fn record_owners(
    owners: &mut HashMap<u32, PidOwner>,
    pids: &[u32],
    session_name: &str,
    display_name: &str,
    color: &str,
    window_index: u32,
    window_name: &str,
)
    ensures
        owners_view(final(owners)@) == owners_recorded(
            owners_view(old(owners)@),
            pids@,
            PidOwnerView {
                session_name: session_name@,
                display_name: display_name@,
                color: color@,
                window_index,
                window_name: window_name@,
            },
        ),
{
    broadcast use vstd::std_specs::hash::group_hash_axioms;

    let ghost start = owners_view(owners@);
    let ghost ow = PidOwnerView {
        session_name: session_name@,
        display_name: display_name@,
        color: color@,
        window_index,
        window_name: window_name@,
    };
    let mut i: usize = 0;
    assert(owners_recorded(start, pids@.take(0), ow) =~= start);
    while i < pids.len()
        invariant
            i <= pids@.len(),
            ow == (PidOwnerView {
                session_name: session_name@,
                display_name: display_name@,
                color: color@,
                window_index,
                window_name: window_name@,
            }),
            owners_view(owners@) == owners_recorded(start, pids@.take(i as int), ow),
        decreases pids@.len() - i,
    {
        let ghost before = owners_view(owners@);
        let pid = pids[i];
        if !owners.contains_key(&pid) {
            let o = PidOwner {
                session_name: string_of(chars_of(session_name).as_slice()),
                display_name: string_of(chars_of(display_name).as_slice()),
                color: string_of(chars_of(color).as_slice()),
                window_index,
                window_name: string_of(chars_of(window_name).as_slice()),
            };
            assert(o@ == ow);
            owners.insert(pid, o);
            assert(owners_view(owners@) =~= before.insert(pid, ow));
        }
        let ghost t0 = pids@.take(i as int);
        let ghost t1 = pids@.take(i + 1);
        assert(t1 =~= t0.push(pid));
        assert forall|k: u32| #[trigger] t1.contains(k) <==> t0.contains(k) || k == pid by {
            if t1.contains(k) {
                let j = choose|j: int| 0 <= j < t1.len() && t1[j] == k;
                if j < t0.len() {
                    assert(t0[j] == k);
                }
            }
            if t0.contains(k) {
                let j = choose|j: int| 0 <= j < t0.len() && t0[j] == k;
                assert(t1[j] == k);
            }
            if k == pid {
                assert(t1[i as int] == k);
            }
        }
        proof {
            let r0 = owners_recorded(start, t0, ow);
            let r1 = owners_recorded(start, t1, ow);
            assert forall|k: u32| #[trigger] r1.contains_key(k) <==> (r0.contains_key(k) || k
                == pid) by {
                assert(t1.contains(k) <==> t0.contains(k) || k == pid);
            }
            if before.contains_key(pid) {
                assert(r1 =~= r0);
            } else {
                assert(r1 =~= r0.insert(pid, ow));
            }
        }
        i = i + 1;
    }
    assert(pids@.take(pids@.len() as int) =~= pids@);
}

/// The name of the window with index `index`: the last listed window with
/// that index, or nothing when none has it.
pub open spec fn window_name_at_of(ws: Seq<TmuxWindowView>, index: u32) -> Seq<char>
    decreases ws.len(),
{
    if ws.len() == 0 {
        seq![]
    } else if ws.last().index == index {
        ws.last().name
    } else {
        window_name_at_of(ws.drop_last(), index)
    }
}

/// The name of window `index` among `windows`, or an empty name.
pub fn window_name_at(windows: &[TmuxWindow], index: u32) -> (r: String)
    ensures
        r@ == window_name_at_of(windows@.map_values(|w: TmuxWindow| w@), index),
{
    let ghost wv = windows@.map_values(|w: TmuxWindow| w@);
    let mut i: usize = windows.len();
    assert(wv.take(i as int) =~= wv);
    while i > 0
        invariant
            i <= windows@.len(),
            wv == windows@.map_values(|w: TmuxWindow| w@),
            window_name_at_of(wv, index) == window_name_at_of(wv.take(i as int), index),
        decreases i,
    {
        assert(wv.take(i as int).drop_last() =~= wv.take(i - 1));
        assert(wv.take(i as int).last() == windows@[i - 1]@);
        if windows[i - 1].index == index {
            return copy_text(&windows[i - 1].name);
        }
        i = i - 1;
    }
    assert(wv.take(0) =~= Seq::<TmuxWindowView>::empty());
    String::new()
}


// ---------------------------------------------------------------------------
// Listing order of matched ports
// ---------------------------------------------------------------------------

/// Whether `a` lists at or before `b`: by session name, then by port.
pub open spec fn session_port_le(a: MatchedPortView, b: MatchedPortView) -> bool {
    if a.session_name == b.session_name {
        a.port <= b.port
    } else {
        text_le(a.session_name, b.session_name)
    }
}

/// `x` inserted into `r` before the first match that lists after it.
pub open spec fn insert_by_session_port(r: Seq<MatchedPortView>, x: MatchedPortView) -> Seq<
    MatchedPortView,
>
    decreases r.len(),
{
    if r.len() == 0 {
        seq![x]
    } else if !session_port_le(r[0], x) {
        seq![x] + r
    } else {
        seq![r[0]] + insert_by_session_port(r.drop_first(), x)
    }
}

/// The matches in listing order, by session name and then port, matches that
/// tie keeping their order (a stable sort).
pub open spec fn sorted_by_session_port(ms: Seq<MatchedPortView>) -> Seq<MatchedPortView>
    decreases ms.len(),
{
    if ms.len() == 0 {
        seq![]
    } else {
        insert_by_session_port(sorted_by_session_port(ms.drop_last()), ms.last())
    }
}

/// Matches in listing order.
pub open spec fn in_session_port_order(ms: Seq<MatchedPortView>) -> bool {
    forall|i: int, j: int| 0 <= i < j < ms.len() ==> session_port_le(#[trigger] ms[i], #[trigger] ms[j])
}

proof fn lemma_session_port_total(a: MatchedPortView, b: MatchedPortView)
    ensures
        session_port_le(a, b) || session_port_le(b, a),
{
    lemma_text_le_total(a.session_name, b.session_name);
}

proof fn lemma_session_port_trans(a: MatchedPortView, b: MatchedPortView, c: MatchedPortView)
    requires
        session_port_le(a, b),
        session_port_le(b, c),
    ensures
        session_port_le(a, c),
{
    if a.session_name != b.session_name && b.session_name != c.session_name {
        lemma_text_le_trans(a.session_name, b.session_name, c.session_name);
        if a.session_name == c.session_name {
            lemma_text_le_antisym(a.session_name, b.session_name);
        }
    }
}

/// Inserting at the first match that lists after `x`: the matches before it,
/// then `x`, then the rest.
proof fn lemma_insert_at(r: Seq<MatchedPortView>, x: MatchedPortView, p: int)
    requires
        0 <= p <= r.len(),
        forall|k: int| 0 <= k < p ==> session_port_le(#[trigger] r[k], x),
        p < r.len() ==> !session_port_le(r[p], x),
    ensures
        insert_by_session_port(r, x) == r.take(p) + seq![x] + r.skip(p),
    decreases r.len(),
{
    if r.len() == 0 {
        assert(r.take(p) + seq![x] + r.skip(p) =~= seq![x]);
    } else if p == 0 {
        assert(r.take(0) + seq![x] + r.skip(0) =~= seq![x] + r);
    } else {
        let t = r.drop_first();
        assert forall|k: int| 0 <= k < p - 1 implies session_port_le(#[trigger] t[k], x) by {
            assert(t[k] == r[k + 1]);
        }
        assert(session_port_le(r[0], x));
        lemma_insert_at(t, x, p - 1);
        assert(r.take(p) + seq![x] + r.skip(p) =~= seq![r[0]] + (t.take(p - 1) + seq![x] + t.skip(
            p - 1,
        )));
    }
}

/// Inserting into matches in listing order keeps them in listing order.
proof fn lemma_insert_keeps_order(r: Seq<MatchedPortView>, x: MatchedPortView)
    requires
        in_session_port_order(r),
    ensures
        in_session_port_order(insert_by_session_port(r, x)),
{
    lemma_first_after(r, x);
    let p = first_after(r, x);
    lemma_insert_at(r, x, p);
    let s = insert_by_session_port(r, x);
    assert forall|i: int, j: int| 0 <= i < j < s.len() implies session_port_le(
        #[trigger] s[i],
        #[trigger] s[j],
    ) by {
        if p < r.len() {
            lemma_session_port_total(r[p], x);
        }
        if i < p && j < p {
            assert(s[i] == r[i] && s[j] == r[j]);
        } else if i < p && j == p {
            assert(s[i] == r[i]);
        } else if i < p {
            assert(s[i] == r[i] && s[j] == r[j - 1]);
        } else if i == p {
            assert(s[j] == r[j - 1]);
            if j - 1 > p {
                lemma_session_port_trans(x, r[p], r[j - 1]);
            }
        } else {
            assert(s[i] == r[i - 1] && s[j] == r[j - 1]);
        }
    }
}

/// The first position in `r` whose match lists after `x` (the length when none does).
spec fn first_after(r: Seq<MatchedPortView>, x: MatchedPortView) -> int
    decreases r.len(),
{
    if r.len() == 0 {
        0
    } else if !session_port_le(r[0], x) {
        0
    } else {
        1 + first_after(r.drop_first(), x)
    }
}

proof fn lemma_first_after(r: Seq<MatchedPortView>, x: MatchedPortView)
    ensures
        0 <= first_after(r, x) <= r.len(),
        forall|k: int| 0 <= k < first_after(r, x) ==> session_port_le(#[trigger] r[k], x),
        first_after(r, x) < r.len() ==> !session_port_le(r[first_after(r, x)], x),
    decreases r.len(),
{
    if r.len() > 0 && session_port_le(r[0], x) {
        let t = r.drop_first();
        lemma_first_after(t, x);
        assert forall|k: int| 0 <= k < first_after(r, x) implies session_port_le(#[trigger] r[k], x) by {
            if k > 0 {
                assert(r[k] == t[k - 1]);
            }
        }
    }
}

/// Sorting puts the matches in listing order.
pub proof fn lemma_sorted_in_order(ms: Seq<MatchedPortView>)
    ensures
        in_session_port_order(sorted_by_session_port(ms)),
    decreases ms.len(),
{
    if ms.len() > 0 {
        lemma_sorted_in_order(ms.drop_last());
        lemma_first_after(sorted_by_session_port(ms.drop_last()), ms.last());
        lemma_insert_keeps_order(sorted_by_session_port(ms.drop_last()), ms.last());
    }
}

fn session_port_le_exec(a: &MatchedPort, b: &MatchedPort) -> (r: bool)
    ensures
        r == session_port_le(a@, b@),
{
    let an = chars_of(a.session_name.as_str());
    let bn = chars_of(b.session_name.as_str());
    if text_le_exec(an.as_slice(), bn.as_slice()) && text_le_exec(bn.as_slice(), an.as_slice()) {
        proof {
            lemma_text_le_antisym(an@, bn@);
        }
        a.port <= b.port
    } else {
        proof {
            if an@ == bn@ {
                lemma_text_le_refl(an@);
            }
        }
        text_le_exec(an.as_slice(), bn.as_slice())
    }
}

/// Order matched ports for listing: by session name, then by port, ties
/// keeping their order.
pub fn sort_by_session_port(ms: Vec<MatchedPort>) -> (r: Vec<MatchedPort>)
    ensures
        r@.map_values(|m: MatchedPort| m@) == sorted_by_session_port(
            ms@.map_values(|m: MatchedPort| m@),
        ),
        in_session_port_order(r@.map_values(|m: MatchedPort| m@)),
{
    let ghost all = ms@.map_values(|m: MatchedPort| m@);
    let mut rest = ms;
    let mut r: Vec<MatchedPort> = Vec::new();
    let mut k: usize = 0;
    let n = rest.len();
    assert(all.skip(0) =~= all);
    assert(all.take(0) =~= Seq::<MatchedPortView>::empty());
    while rest.len() > 0
        invariant
            k + rest@.len() == n,
            n == all.len(),
            rest@.map_values(|m: MatchedPort| m@) == all.skip(k as int),
            r@.map_values(|m: MatchedPort| m@) == sorted_by_session_port(all.take(k as int)),
        decreases rest@.len(),
    {
        let ghost rv = r@.map_values(|m: MatchedPort| m@);
        let ghost old_rest = rest@;
        assert(old_rest.map_values(|m: MatchedPort| m@)[0] == all.skip(k as int)[0]);
        let x = rest.remove(0);
        let ghost xv = x@;
        assert(xv == all[k as int]);
        assert forall|j: int| 0 <= j < rest@.len() implies #[trigger] rest@[j]@ == all.skip(k + 1)[j] by {
            assert(rest@[j] == old_rest[j + 1]);
            assert(old_rest.map_values(|m: MatchedPort| m@)[j + 1] == all.skip(k as int)[j + 1]);
        }
        assert(rest@.map_values(|m: MatchedPort| m@) =~= all.skip(k + 1));
        let mut p: usize = 0;
        while p < r.len() && session_port_le_exec(&r[p], &x)
            invariant
                p <= r@.len(),
                rv == r@.map_values(|m: MatchedPort| m@),
                xv == x@,
                forall|j: int| 0 <= j < p ==> session_port_le(#[trigger] rv[j], xv),
            decreases r@.len() - p,
        {
            assert(rv[p as int] == r@[p as int]@);
            p = p + 1;
        }
        proof {
            if p < r@.len() {
                assert(rv[p as int] == r@[p as int]@);
            }
            lemma_insert_at(rv, xv, p as int);
            assert(all.take(k + 1).drop_last() =~= all.take(k as int));
            assert(all.take(k + 1).last() == xv);
        }
        r.insert(p, x);
        assert(r@.map_values(|m: MatchedPort| m@) =~= rv.take(p as int) + seq![xv] + rv.skip(
            p as int,
        ));
        k = k + 1;
    }
    assert(all.take(n as int) =~= all);
    proof {
        lemma_sorted_in_order(all);
    }
    r
}


/// Every match carries its port's row and its process's owner: the port,
/// address, PID and command of some listed port whose PID has an owner, and
/// the session, display name, colour, window index and window name recorded
/// for that PID.
pub proof fn lemma_matches_carry_owner(ports: Seq<ListeningPortView>, owners: Map<u32, PidOwnerView>)
    ensures
        forall|i: int|
            0 <= i < matched_of(ports, owners).len() ==> {
                let m = #[trigger] matched_of(ports, owners)[i];
                &&& owners.contains_key(m.pid)
                &&& m.session_name == owners[m.pid].session_name
                &&& m.display_name == owners[m.pid].display_name
                &&& m.color == owners[m.pid].color
                &&& m.window_index == owners[m.pid].window_index
                &&& m.window_name == owners[m.pid].window_name
                &&& exists|j: int|
                    0 <= j < ports.len() && #[trigger] ports[j].pid == m.pid && ports[j].port
                        == m.port && ports[j].address == m.address && ports[j].command == m.command
            },
    decreases ports.len(),
{
    if ports.len() > 0 {
        let w = ports.drop_last();
        lemma_matches_carry_owner(w, owners);
        let prev = matched_of(w, owners);
        let ms = matched_of(ports, owners);
        let p = ports.last();
        assert forall|i: int| 0 <= i < ms.len() implies {
            let m = #[trigger] ms[i];
            &&& owners.contains_key(m.pid)
            &&& m.session_name == owners[m.pid].session_name
            &&& m.display_name == owners[m.pid].display_name
            &&& m.color == owners[m.pid].color
            &&& m.window_index == owners[m.pid].window_index
            &&& m.window_name == owners[m.pid].window_name
            &&& exists|j: int|
                0 <= j < ports.len() && #[trigger] ports[j].pid == m.pid && ports[j].port == m.port
                    && ports[j].address == m.address && ports[j].command == m.command
        } by {
            if i < prev.len() {
                assert(ms[i] == prev[i]);
                let m = prev[i];
                let j = choose|j: int|
                    0 <= j < w.len() && #[trigger] w[j].pid == m.pid && w[j].port == m.port
                        && w[j].address == m.address && w[j].command == m.command;
                assert(ports[j] == w[j]);
            } else {
                assert(ports[ports.len() - 1] == p);
            }
        }
    }
}

} // verus!
