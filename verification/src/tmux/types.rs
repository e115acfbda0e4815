//! Plain data returned by tmux queries.
use vstd::prelude::*;

verus! {

/// A tmux session as returned by `list-sessions`.
#[derive(Debug, Clone, PartialEq, Eq)]
pub struct TmuxSession {
    pub name: String,
    pub windows: u32,
    pub attached: bool,
}

/// The value of a [`TmuxSession`].
pub struct TmuxSessionView {
    pub name: Seq<char>,
    pub windows: u32,
    pub attached: bool,
}

impl View for TmuxSession {
    type V = TmuxSessionView;

    open spec fn view(&self) -> TmuxSessionView {
        TmuxSessionView { name: self.name@, windows: self.windows, attached: self.attached }
    }
}

/// A tmux window as returned by `list-windows`.
#[derive(Debug, Clone, PartialEq, Eq)]
pub struct TmuxWindow {
    pub index: u32,
    pub name: String,
    pub cwd: String,
    pub active: bool,
}

/// The value of a [`TmuxWindow`].
pub struct TmuxWindowView {
    pub index: u32,
    pub name: Seq<char>,
    pub cwd: Seq<char>,
    pub active: bool,
}

impl View for TmuxWindow {
    type V = TmuxWindowView;

    open spec fn view(&self) -> TmuxWindowView {
        TmuxWindowView { index: self.index, name: self.name@, cwd: self.cwd@, active: self.active }
    }
}

/// A muster-managed session with its `@muster_*` metadata.
#[derive(Debug, Clone, PartialEq, Eq)]
pub struct SessionInfo {
    pub session_name: String,
    pub display_name: String,
    pub color: String,
    pub profile_id: Option<String>,
    pub window_count: u32,
    pub attached: bool,
}

/// The value of a [`SessionInfo`].
pub struct SessionInfoView {
    pub session_name: Seq<char>,
    pub display_name: Seq<char>,
    pub color: Seq<char>,
    pub profile_id: Option<Seq<char>>,
    pub window_count: u32,
    pub attached: bool,
}

impl View for SessionInfo {
    type V = SessionInfoView;

    open spec fn view(&self) -> SessionInfoView {
        SessionInfoView {
            session_name: self.session_name@,
            display_name: self.display_name@,
            color: self.color@,
            profile_id: match self.profile_id {
                Some(p) => Some(p@),
                None => None,
            },
            window_count: self.window_count,
            attached: self.attached,
        }
    }
}

/// A tmux pane as returned by `list-panes`.
#[derive(Debug, Clone, PartialEq, Eq)]
pub struct TmuxPane {
    pub window_index: u32,
    pub index: u32,
    pub pid: u32,
    pub command: String,
    pub cwd: String,
}

/// The value of a [`TmuxPane`].
pub struct TmuxPaneView {
    pub window_index: u32,
    pub index: u32,
    pub pid: u32,
    pub command: Seq<char>,
    pub cwd: Seq<char>,
}

impl View for TmuxPane {
    type V = TmuxPaneView;

    open spec fn view(&self) -> TmuxPaneView {
        TmuxPaneView {
            window_index: self.window_index,
            index: self.index,
            pid: self.pid,
            command: self.command@,
            cwd: self.cwd@,
        }
    }
}

/// Where a pane lives: its session, window and working directory.
#[derive(Debug, Clone, PartialEq, Eq)]
pub struct PaneContext {
    pub session_name: String,
    pub window_index: u32,
    pub window_name: String,
    pub cwd: String,
}

/// The value of a [`PaneContext`].
pub struct PaneContextView {
    pub session_name: Seq<char>,
    pub window_index: u32,
    pub window_name: Seq<char>,
    pub cwd: Seq<char>,
}

impl View for PaneContext {
    type V = PaneContextView;

    open spec fn view(&self) -> PaneContextView {
        PaneContextView {
            session_name: self.session_name@,
            window_index: self.window_index,
            window_name: self.window_name@,
            cwd: self.cwd@,
        }
    }
}


/// The positions, in a list of panes whose window indexes are `ws`, of the
/// panes of window `w`, in order.
pub open spec fn positions_in_window(ws: Seq<u32>, w: u32) -> Seq<usize>
    decreases ws.len(),
{
    if ws.len() == 0 {
        seq![]
    } else {
        positions_in_window(ws.drop_last(), w) + if ws.last() == w {
            seq![(ws.len() - 1) as usize]
        } else {
            seq![]
        }
    }
}

/// The positions in `panes` of the panes of window `window_index`, in order.
pub fn panes_in_window(panes: &[TmuxPane], window_index: u32) -> (r: Vec<usize>)
    ensures
        r@ == positions_in_window(panes@.map_values(|p: TmuxPane| p.window_index), window_index),
{
    let ghost ws = panes@.map_values(|p: TmuxPane| p.window_index);
    let mut r: Vec<usize> = Vec::new();
    let mut i: usize = 0;
    while i < panes.len()
        invariant
            i <= panes@.len(),
            ws == panes@.map_values(|p: TmuxPane| p.window_index),
            r@ == positions_in_window(ws.take(i as int), window_index),
        decreases panes@.len() - i,
    {
        assert(ws.take(i + 1).drop_last() =~= ws.take(i as int));
        assert(ws.take(i + 1).last() == panes@[i as int].window_index);
        if panes[i].window_index == window_index {
            r.push(i);
        }
        assert(r@ =~= positions_in_window(ws.take(i + 1), window_index));
        i = i + 1;
    }
    assert(ws.take(panes@.len() as int) =~= ws);
    r
}

} // verus!
