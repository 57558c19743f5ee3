//! The coordination panel: an overlay listing the peers, tasks and recent
//! messages of the agents that share the multiplexer.
use vstd::prelude::*;
use vstd::string::*;
use vstd::utf8::{decode_utf8, encode_utf8, encode_utf8_decode_utf8, is_char_boundary};
use crate::seqs::fill;
use crate::text::{chars_of, decimal, push_decimal, string_from_chars};

verus! {

/// A peer known to the coordination broker.
#[derive(Debug, Clone)]
pub struct PeerInfo {
    pub peer_id: String,
    pub pane_id: u64,
    pub status_text: Option<String>,
}

/// A message between peers; `to_peer` is `None` for a broadcast.
#[derive(Debug, Clone)]
pub struct PeerMessage {
    pub from_peer: String,
    pub to_peer: Option<String>,
    pub body: String,
}

/// Where a task stands.
#[derive(Debug, Clone, Copy, PartialEq, Eq, Structural)]
pub enum TaskStatus {
    Pending,
    Assigned,
    InProgress,
    Completed,
    Failed,
}

/// A task handed between peers.
#[derive(Debug, Clone)]
pub struct TaskRequest {
    pub id: Option<i64>,
    pub description: String,
    pub status: TaskStatus,
    pub requester: String,
    pub assignee: Option<String>,
    pub created_at: Option<String>,
}

/// The name under which a task status is shown.
pub open spec fn status_name(s: TaskStatus) -> Seq<char> {
    match s {
        TaskStatus::Pending => "pending"@,
        TaskStatus::Assigned => "assigned"@,
        TaskStatus::InProgress => "in_progress"@,
        TaskStatus::Completed => "completed"@,
        TaskStatus::Failed => "failed"@,
    }
}

impl TaskStatus {
    /// The name under which the status is shown.
    pub fn as_str(&self) -> (s: &'static str)
        ensures
            s@ == status_name(*self),
    {
        match self {
            TaskStatus::Pending => "pending",
            TaskStatus::Assigned => "assigned",
            TaskStatus::InProgress => "in_progress",
            TaskStatus::Completed => "completed",
            TaskStatus::Failed => "failed",
        }
    }
}

/// Data model for the coordination panel overlay.
#[derive(Debug)]
pub struct CoordPanelData {
    pub peers: Vec<PeerInfo>,
    pub recent_messages: Vec<PeerMessage>,
    pub tasks: Vec<TaskRequest>,
}

impl Default for CoordPanelData {
    fn default() -> (d: Self)
        ensures
            d.peers@.len() == 0,
            d.recent_messages@.len() == 0,
            d.tasks@.len() == 0,
    {
        CoordPanelData { peers: Vec::new(), recent_messages: Vec::new(), tasks: Vec::new() }
    }
}

/// Manages the coordination panel state.
pub struct CoordPanel {
    /// Whether the panel is currently visible.
    pub visible: bool,
    /// Cached panel data, refreshed on opening or periodically.
    pub data: CoordPanelData,
}

/// How many recent messages the panel keeps.
pub const KEPT_MESSAGES: usize = 50;

/// How many of the kept messages the panel shows.
pub const SHOWN_MESSAGES: usize = 10;

/// The last `k` elements of `s`, or all of them when there are fewer.
pub open spec fn last_n<T>(s: Seq<T>, k: int) -> Seq<T> {
    if s.len() > k { s.subrange(s.len() - k, s.len() as int) } else { s }
}

/// The byte length of the UTF-8 encoding of `s`.
pub open spec fn utf8_len(s: Seq<char>) -> int {
    encode_utf8(s).len() as int
}

/// A line of more than `w` bytes is cut to its first `w - 1` bytes and an ellipsis.
pub open spec fn truncated(line: Seq<char>, w: int) -> Seq<char> {
    if utf8_len(line) > w {
        decode_utf8(encode_utf8(line).subrange(0, w - 1)) + "…"@
    } else {
        line
    }
}

/// A line can be cut at `w - 1` bytes where it must be: that is a character boundary.
pub open spec fn cuttable(line: Seq<char>, w: int) -> bool {
    utf8_len(line) > w ==> 1 <= w && is_char_boundary(encode_utf8(line), w - 1)
}

/// `s` padded with spaces on the right to `w` characters.
pub open spec fn pad_left(s: Seq<char>, w: int) -> Seq<char> {
    if s.len() >= w { s } else { s + fill(w - s.len(), ' ') }
}

/// `s` centred in `w` characters, the odd space going to the right.
pub open spec fn pad_center(s: Seq<char>, w: int) -> Seq<char> {
    if s.len() >= w {
        s
    } else {
        let p = w - s.len();
        fill(p / 2, ' ') + s + fill((p + 1) / 2, ' ')
    }
}

/// A horizontal rule of `n` box-drawing dashes between two corner characters.
pub open spec fn rule(l: char, r: char, n: int) -> Seq<char> {
    seq![l] + fill(n, '─') + seq![r]
}

/// A framed line with `s` centred.
pub open spec fn title_row(s: Seq<char>, w: int) -> Seq<char> {
    seq!['│'] + pad_center(s, w) + seq!['│']
}

/// A framed line with `s` on the left.
pub open spec fn text_row(s: Seq<char>, w: int) -> Seq<char> {
    seq!['│'] + pad_left(s, w) + seq!['│']
}

/// The line that describes a peer.
pub open spec fn peer_line(p: PeerInfo) -> Seq<char> {
    let status = match p.status_text {
        Some(s) => s@,
        None => "idle"@,
    };
    " "@ + p.peer_id@ + " (pane "@ + decimal(p.pane_id as nat) + ") - "@ + status
}

/// The line that describes a task.
pub open spec fn task_line(t: TaskRequest) -> Seq<char> {
    " ["@ + status_name(t.status) + "] "@ + t.description@
}

/// The line that describes a message.
pub open spec fn message_line(m: PeerMessage) -> Seq<char> {
    let to = match m.to_peer {
        Some(s) => s@,
        None => "all"@,
    };
    " "@ + m.from_peer@ + " → "@ + to + ": "@ + m.body@
}

/// The rows of a section: one per item, cut and framed, or a note when there is none.
pub open spec fn section_rows(items: Seq<Seq<char>>, none: Seq<char>, w: int) -> Seq<Seq<char>> {
    if items.len() == 0 {
        seq![text_row(none, w)]
    } else {
        items.map_values(|s: Seq<char>| text_row(truncated(s, w), w))
    }
}

/// The head of a section: a rule, its centred title and another rule.
pub open spec fn section_head(title: Seq<char>, n: int) -> Seq<Seq<char>> {
    seq![rule('├', '┤', n), title_row(title, 3 * n), rule('├', '┤', n)]
}

/// The width in dashes of a panel rendered for `max_width` columns.
pub open spec fn dashes(max_width: int) -> int {
    if max_width < 60 { max_width } else { 60 }
}

/// The text lines of a panel rendered for `max_width` columns. The frame is
/// `dashes` wide; each dash takes three bytes, and lines are padded and cut by
/// that byte count.
pub open spec fn rendered(panel: CoordPanel, max_width: int) -> Seq<Seq<char>> {
    let n = dashes(max_width);
    let w = 3 * n;
    if !panel.visible {
        Seq::empty()
    } else {
        seq![rule('┌', '┐', n), title_row("Coordination Panel"@, w)]
            + section_head("Peers"@, n)
            + section_rows(panel.data.peers@.map_values(|p: PeerInfo| peer_line(p)), " No active peers"@, w)
            + section_head("Tasks"@, n)
            + section_rows(panel.data.tasks@.map_values(|t: TaskRequest| task_line(t)), " No tasks"@, w)
            + section_head("Recent Messages"@, n)
            + section_rows(
                last_n(panel.data.recent_messages@, SHOWN_MESSAGES as int).map_values(|m: PeerMessage| message_line(m)),
                " No messages"@,
                w,
            )
            + seq![rule('└', '┘', n)]
    }
}

/// Every line that rendering for `max_width` may have to cut can be cut there.
pub open spec fn renderable(panel: CoordPanel, max_width: int) -> bool {
    let w = 3 * dashes(max_width);
    &&& forall|i: int| 0 <= i < panel.data.peers@.len() ==> cuttable(#[trigger] peer_line(panel.data.peers@[i]), w)
    &&& forall|i: int| 0 <= i < panel.data.tasks@.len() ==> cuttable(#[trigger] task_line(panel.data.tasks@[i]), w)
    &&& forall|i: int|
        0 <= i < panel.data.recent_messages@.len() ==> cuttable(#[trigger] message_line(panel.data.recent_messages@[i]), w)
}

/// The views of a vector of strings.
pub open spec fn lines_view(lines: Seq<String>) -> Seq<Seq<char>> {
    lines.map_values(|s: String| s@)
}

proof fn lemma_map_push<A, B>(s: Seq<A>, x: A, f: spec_fn(A) -> B)
    ensures
        s.push(x).map_values(f) == s.map_values(f).push(f(x)),
{
    assert(s.push(x).map_values(f) =~= s.map_values(f).push(f(x)));
}

fn push_spaces(out: &mut Vec<char>, k: usize)
    ensures
        final(out)@ == old(out)@ + fill(k as int, ' '),
{
    let mut i: usize = 0;
    while i < k
        invariant
            i <= k,
            out@ == old(out)@ + fill(i as int, ' '),
        decreases k - i,
    {
        out.push(' ');
        i = i + 1;
        proof {
            assert(out@ =~= old(out)@ + fill(i as int, ' '));
        }
    }
}

fn rule_string(l: char, r: char, n: usize) -> (s: String)
    ensures
        s@ == rule(l, r, n as int),
{
    let mut v: Vec<char> = Vec::new();
    v.push(l);
    let mut i: usize = 0;
    while i < n
        invariant
            i <= n,
            v@ == seq![l] + fill(i as int, '─'),
        decreases n - i,
    {
        v.push('─');
        i = i + 1;
        proof {
            assert(v@ =~= seq![l] + fill(i as int, '─'));
        }
    }
    v.push(r);
    proof {
        assert(v@ =~= rule(l, r, n as int));
    }
    string_from_chars(v.as_slice())
}

fn title_string(s: &str, w: usize) -> (t: String)
    ensures
        t@ == title_row(s@, w as int),
{
    let chars = chars_of(s);
    let mut v: Vec<char> = Vec::new();
    v.push('│');
    if chars.len() >= w {
        v.extend_from_slice(chars.as_slice());
    } else {
        let p = w - chars.len();
        push_spaces(&mut v, p / 2);
        v.extend_from_slice(chars.as_slice());
        push_spaces(&mut v, p - p / 2);
    }
    v.push('│');
    proof {
        assert(v@ =~= title_row(s@, w as int));
    }
    string_from_chars(v.as_slice())
}

fn text_string(s: &str, w: usize) -> (t: String)
    ensures
        t@ == text_row(s@, w as int),
{
    let chars = chars_of(s);
    let mut v: Vec<char> = Vec::new();
    v.push('│');
    v.extend_from_slice(chars.as_slice());
    if chars.len() < w {
        push_spaces(&mut v, w - chars.len());
    }
    v.push('│');
    proof {
        assert(v@ =~= text_row(s@, w as int));
    }
    string_from_chars(v.as_slice())
}

/// Cut a line that is longer than `w` bytes to `w - 1` bytes and an ellipsis.
fn truncate(line: String, w: usize) -> (t: String)
    requires
        cuttable(line@, w as int),
    ensures
        t@ == truncated(line@, w as int),
{
    let text = line.as_str();
    if text.as_bytes().len() > w {
        let (head, _) = text.split_at(w - 1);
        let mut t = head.to_owned();
        t.append("…");
        proof {
            encode_utf8_decode_utf8(head@);
            assert(encode_utf8(head@) =~= encode_utf8(line@).subrange(0, w - 1));
        }
        t
    } else {
        line
    }
}

fn peer_string(p: &PeerInfo) -> (s: String)
    ensures
        s@ == peer_line(*p),
{
    let mut s = " ".to_owned();
    s.append(p.peer_id.as_str());
    s.append(" (pane ");
    let mut digits: Vec<char> = Vec::new();
    push_decimal(&mut digits, p.pane_id);
    proof {
        assert(digits@ =~= decimal(p.pane_id as nat));
    }
    s.append(string_from_chars(digits.as_slice()).as_str());
    s.append(") - ");
    match &p.status_text {
        Some(status) => s.append(status.as_str()),
        None => s.append("idle"),
    }
    s
}

fn task_string(t: &TaskRequest) -> (s: String)
    ensures
        s@ == task_line(*t),
{
    let mut s = " [".to_owned();
    s.append(t.status.as_str());
    s.append("] ");
    s.append(t.description.as_str());
    s
}

fn message_string(m: &PeerMessage) -> (s: String)
    ensures
        s@ == message_line(*m),
{
    let mut s = " ".to_owned();
    s.append(m.from_peer.as_str());
    s.append(" → ");
    match &m.to_peer {
        Some(to) => s.append(to.as_str()),
        None => s.append("all"),
    }
    s.append(": ");
    s.append(m.body.as_str());
    s
}

impl CoordPanel {
    /// A hidden panel with no data.
    pub fn new() -> (p: Self)
        ensures
            !p.visible,
            p.data.peers@.len() == 0,
            p.data.recent_messages@.len() == 0,
            p.data.tasks@.len() == 0,
    {
        CoordPanel { visible: false, data: CoordPanelData::default() }
    }

    /// Toggle panel visibility. Returns whether the panel opened, in which case
    /// its data is due for a refresh.
    pub fn toggle(&mut self) -> (opened: bool)
        ensures
            final(self).visible == !old(self).visible,
            opened == final(self).visible,
            final(self).data == old(self).data,
    {
        self.visible = !self.visible;
        self.visible
    }

    /// Replace the panel data with what the broker reports, keeping only the
    /// last 50 messages.
    pub fn refresh(&mut self, peers: Vec<PeerInfo>, messages: Vec<PeerMessage>, tasks: Vec<TaskRequest>)
        ensures
            final(self).data.peers@ == peers@,
            final(self).data.recent_messages@ == last_n(messages@, KEPT_MESSAGES as int),
            final(self).data.tasks@ == tasks@,
            final(self).visible == old(self).visible,
    {
        self.data.peers = peers;
        let mut messages = messages;
        if messages.len() > KEPT_MESSAGES {
            let start = messages.len() - KEPT_MESSAGES;
            messages = messages.split_off(start);
        }
        self.data.recent_messages = messages;
        self.data.tasks = tasks;
    }

    /// Render the panel as a text block for display.
    /// Returns lines of text to render as an overlay.
    pub fn render_text(&self, max_width: usize) -> (lines: Vec<String>)
        requires
            self.visible ==> renderable(*self, max_width as int),
        ensures
            lines_view(lines@) == rendered(*self, max_width as int),
    {
        if !self.visible {
            proof {
                assert(lines_view(Seq::<String>::empty()) =~= Seq::<Seq<char>>::empty());
            }
            return Vec::new();
        }
        let n = if max_width < 60 { max_width } else { 60 };
        let w = 3 * n;
        let ghost panel = *self;
        let mut lines: Vec<String> = Vec::new();
        lines.push(rule_string('┌', '┐', n));
        lines.push(title_string("Coordination Panel", w));
        // Peers section
        lines.push(rule_string('├', '┤', n));
        lines.push(title_string("Peers", w));
        lines.push(rule_string('├', '┤', n));
        let ghost head1 = lines_view(lines@);
        proof {
            assert(head1 =~= seq![rule('┌', '┐', n as int), title_row("Coordination Panel"@, w as int)] + section_head("Peers"@, n as int));
        }
        if self.data.peers.len() == 0 {
            lines.push(text_string(" No active peers", w));
        } else {
            let mut i: usize = 0;
            while i < self.data.peers.len()
                invariant
                    *self == panel,
                    w == 3 * dashes(max_width as int),
                    renderable(panel, max_width as int),
                    i <= panel.data.peers@.len(),
                    lines_view(lines@) == head1 + panel.data.peers@.take(i as int).map_values(
                        |p: PeerInfo| text_row(truncated(peer_line(p), w as int), w as int),
                    ),
                decreases panel.data.peers@.len() - i,
            {
                let line = peer_string(&self.data.peers[i]);
                let row = text_string(truncate(line, w).as_str(), w);
                assert(row@ == text_row(truncated(peer_line(panel.data.peers@[i as int]), w as int), w as int));
                let ghost before = lines@;
                lines.push(row);
                proof {
                    lemma_map_push(before, row, |s: String| s@);
                    assert(panel.data.peers@.take(i + 1) =~= panel.data.peers@.take(i as int).push(panel.data.peers@[i as int]));
                    lemma_map_push(panel.data.peers@.take(i as int), panel.data.peers@[i as int], |p: PeerInfo| text_row(truncated(peer_line(p), w as int), w as int));
                    assert(lines_view(lines@) =~= head1 + panel.data.peers@.take(i + 1).map_values(
                        |p: PeerInfo| text_row(truncated(peer_line(p), w as int), w as int),
                    ));
                }
                i = i + 1;
            }
            proof {
                assert(panel.data.peers@.take(i as int) =~= panel.data.peers@);
            }
        }
        proof {
            assert(lines_view(lines@) =~= head1 + section_rows(
                panel.data.peers@.map_values(|p: PeerInfo| peer_line(p)),
                " No active peers"@,
                w as int,
            ));
        }
        let ghost done1 = lines_view(lines@);
        // Tasks section
        lines.push(rule_string('├', '┤', n));
        lines.push(title_string("Tasks", w));
        lines.push(rule_string('├', '┤', n));
        let ghost head2 = lines_view(lines@);
        proof {
            assert(head2 =~= done1 + section_head("Tasks"@, n as int));
        }
        if self.data.tasks.len() == 0 {
            lines.push(text_string(" No tasks", w));
        } else {
            let mut i: usize = 0;
            while i < self.data.tasks.len()
                invariant
                    *self == panel,
                    w == 3 * dashes(max_width as int),
                    renderable(panel, max_width as int),
                    i <= panel.data.tasks@.len(),
                    lines_view(lines@) == head2 + panel.data.tasks@.take(i as int).map_values(
                        |t: TaskRequest| text_row(truncated(task_line(t), w as int), w as int),
                    ),
                decreases panel.data.tasks@.len() - i,
            {
                let line = task_string(&self.data.tasks[i]);
                let row = text_string(truncate(line, w).as_str(), w);
                let ghost before = lines@;
                lines.push(row);
                proof {
                    lemma_map_push(before, row, |s: String| s@);
                    assert(panel.data.tasks@.take(i + 1) =~= panel.data.tasks@.take(i as int).push(panel.data.tasks@[i as int]));
                    lemma_map_push(panel.data.tasks@.take(i as int), panel.data.tasks@[i as int], |t: TaskRequest| text_row(truncated(task_line(t), w as int), w as int));
                    assert(lines_view(lines@) =~= head2 + panel.data.tasks@.take(i + 1).map_values(
                        |t: TaskRequest| text_row(truncated(task_line(t), w as int), w as int),
                    ));
                }
                i = i + 1;
            }
            proof {
                assert(panel.data.tasks@.take(i as int) =~= panel.data.tasks@);
            }
        }
        proof {
            assert(lines_view(lines@) =~= head2 + section_rows(
                panel.data.tasks@.map_values(|t: TaskRequest| task_line(t)),
                " No tasks"@,
                w as int,
            ));
        }
        let ghost done2 = lines_view(lines@);
        // Messages section
        lines.push(rule_string('├', '┤', n));
        lines.push(title_string("Recent Messages", w));
        lines.push(rule_string('├', '┤', n));
        let ghost head3 = lines_view(lines@);
        proof {
            assert(head3 =~= done2 + section_head("Recent Messages"@, n as int));
        }
        let total = self.data.recent_messages.len();
        let first = if total > SHOWN_MESSAGES { total - SHOWN_MESSAGES } else { 0 };
        let ghost recent = last_n(panel.data.recent_messages@, SHOWN_MESSAGES as int);
        proof {
            assert(recent =~= panel.data.recent_messages@.subrange(first as int, total as int));
        }
        if total == 0 {
            lines.push(text_string(" No messages", w));
        } else {
            let mut i: usize = first;
            while i < total
                invariant
                    *self == panel,
                    total == panel.data.recent_messages@.len(),
                    recent == panel.data.recent_messages@.subrange(first as int, total as int),
                    w == 3 * dashes(max_width as int),
                    renderable(panel, max_width as int),
                    first <= i <= total,
                    lines_view(lines@) == head3 + recent.take(i - first).map_values(
                        |m: PeerMessage| text_row(truncated(message_line(m), w as int), w as int),
                    ),
                decreases total - i,
            {
                let line = message_string(&self.data.recent_messages[i]);
                let row = text_string(truncate(line, w).as_str(), w);
                let ghost before = lines@;
                lines.push(row);
                proof {
                    lemma_map_push(before, row, |s: String| s@);
                    assert(recent[i - first] == panel.data.recent_messages@[i as int]);
                    assert(recent.take(i + 1 - first) =~= recent.take(i - first).push(recent[i - first]));
                    lemma_map_push(recent.take(i - first), recent[i - first], |m: PeerMessage| text_row(truncated(message_line(m), w as int), w as int));
                    assert(lines_view(lines@) =~= head3 + recent.take(i + 1 - first).map_values(
                        |m: PeerMessage| text_row(truncated(message_line(m), w as int), w as int),
                    ));
                }
                i = i + 1;
            }
            proof {
                assert(recent.take(i - first) =~= recent);
            }
        }
        proof {
            assert(lines_view(lines@) =~= head3 + section_rows(
                recent.map_values(|m: PeerMessage| message_line(m)),
                " No messages"@,
                w as int,
            ));
        }
        let ghost done3 = lines_view(lines@);
        lines.push(rule_string('└', '┘', n));
        proof {
            assert(lines_view(lines@) =~= done3 + seq![rule('└', '┘', n as int)]);
            assert(lines_view(lines@) =~= rendered(panel, max_width as int));
        }
        lines
    }
}

} // verus!
