//! The tmux control-mode protocol: parsing of single lines and the stream state
//! machine that separates notifications from command response blocks.
use vstd::prelude::*;

use crate::text::{
    chars_of, eq_str, first_word, first_word_of, has_prefix, lemma_index_of, splitn_char, splitn_on,
    string_of, strip_prefix, strip_prefix_str, trim, trim_chars,
};

verus! {

/// Events emitted from tmux control mode.
#[derive(Debug, Clone, PartialEq, Eq)]
pub enum MusterEvent {
    TabAdded { window_id: String },
    TabClosed { window_id: String },
    TabRenamed { window_id: String, name: String },
    ActiveTabChanged { session_id: String, window_id: String },
    SessionsChanged,
    SessionRenamed { name: String },
    SessionEnded,
    LayoutChanged { window_id: String },
    ClientDetached { client: String },
    SubscriptionChanged { name: String, window_id: String, pane_id: String, value: String },
}

/// The value of a [`MusterEvent`], its texts taken as character sequences.
pub enum EventView {
    TabAdded { window_id: Seq<char> },
    TabClosed { window_id: Seq<char> },
    TabRenamed { window_id: Seq<char>, name: Seq<char> },
    ActiveTabChanged { session_id: Seq<char>, window_id: Seq<char> },
    SessionsChanged,
    SessionRenamed { name: Seq<char> },
    SessionEnded,
    LayoutChanged { window_id: Seq<char> },
    ClientDetached { client: Seq<char> },
    SubscriptionChanged {
        name: Seq<char>,
        window_id: Seq<char>,
        pane_id: Seq<char>,
        value: Seq<char>,
    },
}

impl View for MusterEvent {
    type V = EventView;

    open spec fn view(&self) -> EventView {
        match self {
            MusterEvent::TabAdded { window_id } => EventView::TabAdded { window_id: window_id@ },
            MusterEvent::TabClosed { window_id } => EventView::TabClosed { window_id: window_id@ },
            MusterEvent::TabRenamed { window_id, name } => EventView::TabRenamed {
                window_id: window_id@,
                name: name@,
            },
            MusterEvent::ActiveTabChanged { session_id, window_id } =>
                EventView::ActiveTabChanged { session_id: session_id@, window_id: window_id@ },
            MusterEvent::SessionsChanged => EventView::SessionsChanged,
            MusterEvent::SessionRenamed { name } => EventView::SessionRenamed { name: name@ },
            MusterEvent::SessionEnded => EventView::SessionEnded,
            MusterEvent::LayoutChanged { window_id } => EventView::LayoutChanged {
                window_id: window_id@,
            },
            MusterEvent::ClientDetached { client } => EventView::ClientDetached {
                client: client@,
            },
            MusterEvent::SubscriptionChanged { name, window_id, pane_id, value } =>
                EventView::SubscriptionChanged {
                name: name@,
                window_id: window_id@,
                pane_id: pane_id@,
                value: value@,
            },
        }
    }
}

/// A parsed line from the control mode stream.
#[derive(Debug, Clone, PartialEq, Eq)]
pub enum ControlLine {
    Notification(MusterEvent),
    BeginResponse { timestamp: String, command_number: String, flags: String },
    EndResponse { timestamp: String, command_number: String, flags: String },
    ErrorResponse { timestamp: String, command_number: String, flags: String },
    OutputLine(String),
    Unknown(String),
}

/// The value of a [`ControlLine`].
pub enum ControlLineView {
    Notification(EventView),
    BeginResponse { timestamp: Seq<char>, command_number: Seq<char>, flags: Seq<char> },
    EndResponse { timestamp: Seq<char>, command_number: Seq<char>, flags: Seq<char> },
    ErrorResponse { timestamp: Seq<char>, command_number: Seq<char>, flags: Seq<char> },
    OutputLine(Seq<char>),
    Unknown(Seq<char>),
}

impl View for ControlLine {
    type V = ControlLineView;

    open spec fn view(&self) -> ControlLineView {
        match self {
            ControlLine::Notification(e) => ControlLineView::Notification(e@),
            ControlLine::BeginResponse { timestamp, command_number, flags } =>
                ControlLineView::BeginResponse {
                timestamp: timestamp@,
                command_number: command_number@,
                flags: flags@,
            },
            ControlLine::EndResponse { timestamp, command_number, flags } =>
                ControlLineView::EndResponse {
                timestamp: timestamp@,
                command_number: command_number@,
                flags: flags@,
            },
            ControlLine::ErrorResponse { timestamp, command_number, flags } =>
                ControlLineView::ErrorResponse {
                timestamp: timestamp@,
                command_number: command_number@,
                flags: flags@,
            },
            ControlLine::OutputLine(s) => ControlLineView::OutputLine(s@),
            ControlLine::Unknown(s) => ControlLineView::Unknown(s@),
        }
    }
}

/// The space-separated fields of a notification payload, split into at most `n`
/// pieces, the last piece keeping any further spaces.
pub open spec fn fields(rest: Seq<char>, n: nat) -> Seq<Seq<char>> {
    splitn_char(rest, n, ' ')
}

/// What `parse_control_line` makes of a line.
///
/// Known notifications (`%window-add`, `%window-close`, `%window-renamed`,
/// `%session-window-changed`, `%sessions-changed`, `%session-renamed`,
/// `%layout-change`, `%client-detached`, `%subscription-changed`) become
/// events; `%begin`, `%end` and `%error` with their three fields frame
/// responses; other lines starting with `%` are unknown; the rest is output.
/// A prefix whose payload lacks the expected fields falls through to the
/// checks after it.
pub open spec fn control_line_of(l: Seq<char>) -> ControlLineView {
    let wa = strip_prefix(l, "%window-add "@);
    let wc = strip_prefix(l, "%window-close "@);
    let wr = strip_prefix(l, "%window-renamed "@);
    let sw = strip_prefix(l, "%session-window-changed "@);
    let sr = strip_prefix(l, "%session-renamed "@);
    let lc = strip_prefix(l, "%layout-change "@);
    let cd = strip_prefix(l, "%client-detached "@);
    let bg = strip_prefix(l, "%begin "@);
    let en = strip_prefix(l, "%end "@);
    let er = strip_prefix(l, "%error "@);
    let sc = strip_prefix(l, "%subscription-changed "@);
    if wa is Some {
        ControlLineView::Notification(EventView::TabAdded { window_id: trim(wa.unwrap()) })
    } else if wc is Some {
        ControlLineView::Notification(EventView::TabClosed { window_id: trim(wc.unwrap()) })
    } else if wr is Some && fields(wr.unwrap(), 2).len() == 2 {
        let p = fields(wr.unwrap(), 2);
        ControlLineView::Notification(EventView::TabRenamed { window_id: p[0], name: p[1] })
    } else if sw is Some && fields(sw.unwrap(), 2).len() == 2 {
        let p = fields(sw.unwrap(), 2);
        ControlLineView::Notification(
            EventView::ActiveTabChanged { session_id: p[0], window_id: p[1] },
        )
    } else if l == "%sessions-changed"@ {
        ControlLineView::Notification(EventView::SessionsChanged)
    } else if sr is Some {
        ControlLineView::Notification(EventView::SessionRenamed { name: trim(sr.unwrap()) })
    } else if lc is Some {
        ControlLineView::Notification(EventView::LayoutChanged { window_id: first_word(lc.unwrap()) })
    } else if cd is Some {
        ControlLineView::Notification(EventView::ClientDetached { client: trim(cd.unwrap()) })
    } else if bg is Some && fields(bg.unwrap(), 3).len() == 3 {
        let p = fields(bg.unwrap(), 3);
        ControlLineView::BeginResponse { timestamp: p[0], command_number: p[1], flags: p[2] }
    } else if en is Some && fields(en.unwrap(), 3).len() == 3 {
        let p = fields(en.unwrap(), 3);
        ControlLineView::EndResponse { timestamp: p[0], command_number: p[1], flags: p[2] }
    } else if er is Some && fields(er.unwrap(), 3).len() == 3 {
        let p = fields(er.unwrap(), 3);
        ControlLineView::ErrorResponse { timestamp: p[0], command_number: p[1], flags: p[2] }
    } else if sc is Some && fields(sc.unwrap(), 4).len() == 4 {
        let p = fields(sc.unwrap(), 4);
        ControlLineView::Notification(
            EventView::SubscriptionChanged {
                name: p[0],
                window_id: p[1],
                pane_id: p[2],
                value: p[3],
            },
        )
    } else if l.len() > 0 && l[0] == '%' {
        ControlLineView::Unknown(l)
    } else {
        ControlLineView::OutputLine(l)
    }
}

/// Parse a single line from the control mode stream.
pub fn parse_control_line(line: &str) -> (r: ControlLine)
    ensures
        r@ == control_line_of(line@),
{
    let l = chars_of(line);
    let ls = l.as_slice();
    if let Some(rest) = strip_prefix_str(ls, "%window-add ") {
        let id = trim_chars(rest.as_slice());
        return ControlLine::Notification(MusterEvent::TabAdded { window_id: string_of(id.as_slice()) });
    }
    if let Some(rest) = strip_prefix_str(ls, "%window-close ") {
        let id = trim_chars(rest.as_slice());
        return ControlLine::Notification(
            MusterEvent::TabClosed { window_id: string_of(id.as_slice()) },
        );
    }
    if let Some(rest) = strip_prefix_str(ls, "%window-renamed ") {
        let parts = splitn_on(rest.as_slice(), 2, ' ');
        if parts.len() == 2 {
            return ControlLine::Notification(
                MusterEvent::TabRenamed {
                    window_id: string_of(parts[0].as_slice()),
                    name: string_of(parts[1].as_slice()),
                },
            );
        }
    }
    if let Some(rest) = strip_prefix_str(ls, "%session-window-changed ") {
        let parts = splitn_on(rest.as_slice(), 2, ' ');
        if parts.len() == 2 {
            return ControlLine::Notification(
                MusterEvent::ActiveTabChanged {
                    session_id: string_of(parts[0].as_slice()),
                    window_id: string_of(parts[1].as_slice()),
                },
            );
        }
    }
    if eq_str(ls, "%sessions-changed") {
        return ControlLine::Notification(MusterEvent::SessionsChanged);
    }
    if let Some(rest) = strip_prefix_str(ls, "%session-renamed ") {
        let name = trim_chars(rest.as_slice());
        return ControlLine::Notification(
            MusterEvent::SessionRenamed { name: string_of(name.as_slice()) },
        );
    }
    if let Some(rest) = strip_prefix_str(ls, "%layout-change ") {
        let id = first_word_of(rest.as_slice());
        return ControlLine::Notification(
            MusterEvent::LayoutChanged { window_id: string_of(id.as_slice()) },
        );
    }
    if let Some(rest) = strip_prefix_str(ls, "%client-detached ") {
        let client = trim_chars(rest.as_slice());
        return ControlLine::Notification(
            MusterEvent::ClientDetached { client: string_of(client.as_slice()) },
        );
    }
    if let Some(rest) = strip_prefix_str(ls, "%begin ") {
        let parts = splitn_on(rest.as_slice(), 3, ' ');
        if parts.len() == 3 {
            return ControlLine::BeginResponse {
                timestamp: string_of(parts[0].as_slice()),
                command_number: string_of(parts[1].as_slice()),
                flags: string_of(parts[2].as_slice()),
            };
        }
    }
    if let Some(rest) = strip_prefix_str(ls, "%end ") {
        let parts = splitn_on(rest.as_slice(), 3, ' ');
        if parts.len() == 3 {
            return ControlLine::EndResponse {
                timestamp: string_of(parts[0].as_slice()),
                command_number: string_of(parts[1].as_slice()),
                flags: string_of(parts[2].as_slice()),
            };
        }
    }
    if let Some(rest) = strip_prefix_str(ls, "%error ") {
        let parts = splitn_on(rest.as_slice(), 3, ' ');
        if parts.len() == 3 {
            return ControlLine::ErrorResponse {
                timestamp: string_of(parts[0].as_slice()),
                command_number: string_of(parts[1].as_slice()),
                flags: string_of(parts[2].as_slice()),
            };
        }
    }
    if let Some(rest) = strip_prefix_str(ls, "%subscription-changed ") {
        let parts = splitn_on(rest.as_slice(), 4, ' ');
        if parts.len() == 4 {
            return ControlLine::Notification(
                MusterEvent::SubscriptionChanged {
                    name: string_of(parts[0].as_slice()),
                    window_id: string_of(parts[1].as_slice()),
                    pane_id: string_of(parts[2].as_slice()),
                    value: string_of(parts[3].as_slice()),
                },
            );
        }
    }
    if l.len() > 0 && l[0] == '%' {
        return ControlLine::Unknown(string_of(ls));
    }
    ControlLine::OutputLine(string_of(ls))
}

/// The state of a [`StreamParser`]: whether a response block is open, the number
/// of the command it answers, and the output lines collected inside it.
pub struct ParserView {
    pub in_response: bool,
    pub current_command: Option<Seq<char>>,
    pub response_lines: Seq<Seq<char>>,
}

/// Tracks parser state for the control mode stream.
#[derive(Debug)]
pub struct StreamParser {
    in_response: bool,
    current_command: Option<String>,
    response_lines: Vec<String>,
}

impl View for StreamParser {
    type V = ParserView;

    closed spec fn view(&self) -> ParserView {
        ParserView {
            in_response: self.in_response,
            current_command: match self.current_command {
                Some(c) => Some(c@),
                None => None,
            },
            response_lines: self.response_lines@.map_values(|s: String| s@),
        }
    }
}

/// The events that one line yields: its event when it is a notification, none otherwise.
pub open spec fn events_of_line(l: Seq<char>) -> Seq<EventView> {
    match control_line_of(l) {
        ControlLineView::Notification(e) => seq![e],
        _ => seq![],
    }
}

/// The parser state after reading line `l` in state `st`.
pub open spec fn next_state(st: ParserView, l: Seq<char>) -> ParserView {
    match control_line_of(l) {
        ControlLineView::BeginResponse { command_number, .. } => ParserView {
            in_response: true,
            current_command: Some(command_number),
            response_lines: seq![],
        },
        ControlLineView::EndResponse { .. } | ControlLineView::ErrorResponse { .. } => ParserView {
            in_response: false,
            current_command: None,
            response_lines: seq![],
        },
        ControlLineView::OutputLine(t) => if st.in_response {
            ParserView { response_lines: st.response_lines.push(t), ..st }
        } else {
            st
        },
        _ => st,
    }
}

impl StreamParser {
    /// A parser outside any response block.
    pub fn new() -> (p: Self)
        ensures
            p@ == (ParserView {
                in_response: false,
                current_command: None,
                response_lines: seq![],
            }),
    {
        let p = StreamParser { in_response: false, current_command: None, response_lines: Vec::new() };
        assert(p@.response_lines =~= Seq::<Seq<char>>::empty());
        p
    }

    /// Feed a line and get back any events that should be emitted.
    pub fn feed(&mut self, line: &str) -> (events: Vec<MusterEvent>)
        ensures
            events@.map_values(|e: MusterEvent| e@) == events_of_line(line@),
            final(self)@ == next_state(old(self)@, line@),
    {
        let parsed = parse_control_line(line);
        let mut events: Vec<MusterEvent> = Vec::new();
        let ghost st = self@;
        match parsed {
            ControlLine::Notification(event) => {
                events.push(event);
            },
            ControlLine::BeginResponse { command_number, .. } => {
                self.in_response = true;
                self.current_command = Some(command_number);
                self.response_lines.clear();
            },
            ControlLine::EndResponse { .. } | ControlLine::ErrorResponse { .. } => {
                self.in_response = false;
                self.current_command = None;
                self.response_lines.clear();
            },
            ControlLine::OutputLine(text) => {
                if self.in_response {
                    self.response_lines.push(text);
                }
            },
            ControlLine::Unknown(_) => {},
        }
        assert(events@.map_values(|e: MusterEvent| e@) =~= events_of_line(line@));
        assert(self@.response_lines =~= next_state(st, line@).response_lines);
        events
    }
}

impl Default for StreamParser {
    fn default() -> (p: Self)
        ensures
            p@ == (ParserView {
                in_response: false,
                current_command: None,
                response_lines: seq![],
            }),
    {
        StreamParser::new()
    }
}

/// A line that starts with `%` is never taken as command output.
pub open spec fn is_output_text(l: Seq<char>) -> bool {
    l.len() == 0 || l[0] != '%'
}

/// Lines starting with `%` are framing or notifications, never output: only a
/// line that does not start with `%` parses as an output line.
pub proof fn lemma_percent_lines_are_not_output(l: Seq<char>)
    ensures
        control_line_of(l) is OutputLine ==> is_output_text(l),
{
}

/// The lines a parser collects inside a response block are output lines: if
/// none of the collected lines starts with `%` before a line is fed, none does
/// after it.
pub proof fn lemma_collected_lines_are_output(st: ParserView, l: Seq<char>)
    requires
        forall|i: int| 0 <= i < st.response_lines.len() ==> is_output_text(
            #[trigger] st.response_lines[i],
        ),
    ensures
        forall|i: int|
            0 <= i < next_state(st, l).response_lines.len() ==> is_output_text(
                #[trigger] next_state(st, l).response_lines[i],
            ),
{
    let n = next_state(st, l);
    assert forall|i: int| 0 <= i < n.response_lines.len() implies is_output_text(
        #[trigger] n.response_lines[i],
    ) by {
        if control_line_of(l) is OutputLine && st.in_response {
            if i < st.response_lines.len() {
                assert(n.response_lines[i] == st.response_lines[i]);
            }
        }
    }
}

/// A notification yields exactly its event and leaves the parser state as it
/// was, inside a response block or outside one.
pub proof fn lemma_notification_keeps_state(st: ParserView, l: Seq<char>)
    requires
        control_line_of(l) is Notification,
    ensures
        next_state(st, l) == st,
        events_of_line(l).len() == 1,
{
}

/// Output outside a response block is dropped: the state does not change and
/// no event is emitted.
pub proof fn lemma_output_outside_block_ignored(st: ParserView, l: Seq<char>)
    requires
        !st.in_response,
        control_line_of(l) is OutputLine,
    ensures
        next_state(st, l) == st,
        events_of_line(l).len() == 0,
{
}

/// `%end` and `%error` close the block: the parser is outside any block, with
/// no command and no collected lines.
pub proof fn lemma_end_closes_block(st: ParserView, l: Seq<char>)
    requires
        control_line_of(l) is EndResponse || control_line_of(l) is ErrorResponse,
    ensures
        !next_state(st, l).in_response,
        next_state(st, l).current_command is None,
        next_state(st, l).response_lines.len() == 0,
{
}


/// A rename notification names the window and its whole new name: for a
/// window id without spaces, `%window-renamed <id> <name>` is the event that
/// window `<id>` is now called `<name>`, spaces in the name included.
pub proof fn lemma_window_renamed_line(id: Seq<char>, name: Seq<char>)
    requires
        !id.contains(' '),
    ensures
        control_line_of("%window-renamed "@ + id + " "@ + name) == ControlLineView::Notification(
            EventView::TabRenamed { window_id: id, name: name },
        ),
{
    reveal_strlit("%window-renamed ");
    reveal_strlit("%window-add ");
    reveal_strlit("%window-close ");
    reveal_strlit(" ");
    let p = "%window-renamed "@;
    let rest = id + " "@ + name;
    let l = p + rest;
    assert(l =~= "%window-renamed "@ + id + " "@ + name);
    assert(l.take(p.len() as int) =~= p);
    assert(l.skip(p.len() as int) =~= rest);
    assert(l[8] == 'r');
    assert(strip_prefix(l, "%window-add "@) is None) by {
        if has_prefix(l, "%window-add "@) {
            assert(l.take(12)[8] == l[8]);
        }
    }
    assert(strip_prefix(l, "%window-close "@) is None) by {
        if has_prefix(l, "%window-close "@) {
            assert(l.take(14)[8] == l[8]);
        }
    }
    assert(strip_prefix(l, p) == Some(rest));
    let i = id.len() as int;
    assert forall|j: int| 0 <= j < i implies rest[j] != ' ' by {
        assert(rest[j] == id[j]);
    }
    assert(rest[i] == ' ');
    lemma_index_of(rest, ' ', i);
    assert(rest.take(i) =~= id);
    assert(rest.skip(i + 1) =~= name);
    assert(crate::text::split_once(rest, ' ') == Some((id, name)));
    assert(splitn_char(name, 1, ' ') == seq![name]);
    assert(splitn_char(rest, 2, ' ') == seq![id] + splitn_char(name, 1, ' '));
    assert(fields(rest, 2) =~= seq![id, name]);
}

} // verus!
