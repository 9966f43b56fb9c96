//! What the console prints for the session's events: streamed messages
//! after a `name>` prompt, a spinner while a participant is thinking or a
//! status is shown, and persisted lines for tools and actions, each followed
//! by the user's `you>` prompt.
use vstd::prelude::*;

use crate::orchestrator::types::ParticipantId;
use crate::repl::transport::{label_of, participant_label, OutboundTransportEvent};
use crate::text::{string_push_str};

verus! {

/// The console's state between events.
#[derive(Debug)]
pub struct ConsoleRenderer {
    current_message_has_delta: bool,
    loading_participant: Option<ParticipantId>,
    loading_frame: usize,
    ephemeral_line_active: bool,
    active_status_line: Option<String>,
    status_frame: usize,
}

/// The console's state: whether the current message has shown text, whose
/// reply is awaited (with its spinner frame), whether a transient line is on
/// screen, and the status line shown (with its spinner frame).
pub struct RenderView {
    pub has_delta: bool,
    pub loading: Option<ParticipantId>,
    pub loading_frame: usize,
    pub ephemeral: bool,
    pub status: Option<Seq<char>>,
    pub status_frame: usize,
}

/// Erases the current console line.
pub open spec fn clear_text() -> Seq<char> {
    "\r\x1b[2K"@
}

/// The spinner for frame `f`.
pub open spec fn dots(f: usize) -> Seq<char> {
    if f % 4 == 0 {
        ".  "@
    } else if f % 4 == 1 {
        ".. "@
    } else if f % 4 == 2 {
        "..."@
    } else {
        " .."@
    }
}

/// The next spinner frame (wrapping around).
pub open spec fn next_frame(f: usize) -> usize {
    if f == usize::MAX {
        0
    } else {
        (f + 1) as usize
    }
}

/// The awaited reply of `p`, spinner frame `f`.
pub open spec fn loading_text(p: ParticipantId, f: usize) -> Seq<char> {
    "\r"@ + label_of(p) + "> "@ + dots(f)
}

/// Status line `t`, spinner frame `f`.
pub open spec fn status_text(t: Seq<char>, f: usize) -> Seq<char> {
    clear_text() + t + " "@ + dots(f)
}

/// Line `t` kept on screen, then the user's prompt.
pub open spec fn persisted_text(t: Seq<char>) -> Seq<char> {
    clear_text() + t + "\n"@ + "you> "@
}

/// Line `t` kept on screen in cyan, then the user's prompt.
pub open spec fn tool_line_text(t: Seq<char>) -> Seq<char> {
    clear_text() + "\x1b[36m"@ + t + "\x1b[0m\n"@ + "you> "@
}

/// The state after a transient line is taken off the screen, and what is
/// printed for it.
pub open spec fn cleared(s: RenderView) -> (RenderView, Seq<char>) {
    (
        RenderView { ephemeral: false, status: None, ..s },
        if s.ephemeral {
            clear_text()
        } else {
            Seq::empty()
        },
    )
}

/// The state after event `e` and what the console prints for it.
pub open spec fn render_event(s: RenderView, e: OutboundTransportEvent) -> (RenderView, Seq<char>) {
    match e {
        OutboundTransportEvent::MessageStarted { participant } => {
            let (c, out) = cleared(s);
            (
                RenderView { has_delta: false, loading_frame: 0, loading: Some(participant), ..c },
                out + loading_text(participant, 0),
            )
        },
        OutboundTransportEvent::MessageDelta { participant, text } => if !s.has_delta {
            let (c, out) = cleared(s);
            (
                RenderView { loading: None, has_delta: true, ..c },
                out + "\r"@ + label_of(participant) + "> "@ + text@,
            )
        } else {
            (s, text@)
        },
        OutboundTransportEvent::MessageCompleted { .. } => (
            RenderView { has_delta: false, loading: None, status: None, ephemeral: false, ..s },
            if s.has_delta {
                "\n"@ + "you> "@
            } else {
                clear_text()
            },
        ),
        OutboundTransportEvent::Status { participant, text } => {
            let line = label_of(participant) + " status> "@ + text@;
            (
                RenderView { status: Some(line), status_frame: 0, ephemeral: true, ..s },
                status_text(line, 0),
            )
        },
        OutboundTransportEvent::ToolCallStarted { participant, tool_name } => {
            let (c, out) = cleared(s);
            (c, out + tool_line_text(label_of(participant) + " debug> tool "@ + tool_name@ + " ..."@))
        },
        OutboundTransportEvent::ToolCallDelta { participant, tool_name, .. } => {
            let (c, out) = cleared(s);
            (
                c,
                out + tool_line_text(
                    label_of(participant) + " debug> tool "@ + tool_name@ + " arguments ..."@,
                ),
            )
        },
        OutboundTransportEvent::ToolCallCompleted { participant, tool_name } => {
            let (c, out) = cleared(s);
            (c, out + tool_line_text(label_of(participant) + " debug> tool "@ + tool_name@ + " ready"@))
        },
        OutboundTransportEvent::ActionPlanned { participant, action } => {
            let (c, out) = cleared(s);
            (c, out + persisted_text(label_of(participant) + " action> "@ + action@))
        },
        OutboundTransportEvent::ActionCompleted { participant, status } => {
            let (c, out) = cleared(s);
            (c, out + persisted_text(label_of(participant) + " status> "@ + status@))
        },
        OutboundTransportEvent::ActionFailed { participant, status } => {
            let (c, out) = cleared(s);
            (c, out + persisted_text(label_of(participant) + " status> "@ + status@))
        },
    }
}

/// The spinner runs while no text of the current message is shown and a
/// reply is awaited or a status is shown.
pub open spec fn spinning(s: RenderView) -> bool {
    !s.has_delta && (s.loading is Some || s.status is Some)
}

/// The state after a spinner tick and what is printed: the awaited reply's
/// spinner advances, else the status line's.
pub open spec fn render_tick(s: RenderView) -> (RenderView, Seq<char>) {
    match s.loading {
        Some(p) => {
            let f = next_frame(s.loading_frame);
            (RenderView { loading_frame: f, ..s }, loading_text(p, f))
        },
        None => match s.status {
            Some(t) => {
                let f = next_frame(s.status_frame);
                (RenderView { status_frame: f, ephemeral: true, ..s }, status_text(t, f))
            },
            None => (s, Seq::empty()),
        },
    }
}

fn dots_text(f: usize) -> (r: &'static str)
    ensures
        r@ == dots(f),
{
    if f % 4 == 0 {
        ".  "
    } else if f % 4 == 1 {
        ".. "
    } else if f % 4 == 2 {
        "..."
    } else {
        " .."
    }
}

fn loading_line(p: &ParticipantId, f: usize) -> (r: String)
    ensures
        r@ == loading_text(*p, f),
{
    let mut s = "\r".to_owned();
    string_push_str(&mut s, participant_label(p));
    string_push_str(&mut s, "> ");
    string_push_str(&mut s, dots_text(f));
    s
}

fn status_line(t: &str, f: usize) -> (r: String)
    ensures
        r@ == status_text(t@, f),
{
    let mut s = "\r\x1b[2K".to_owned();
    string_push_str(&mut s, t);
    string_push_str(&mut s, " ");
    string_push_str(&mut s, dots_text(f));
    s
}

fn persisted_line(out: &mut String, t: &str)
    ensures
        final(out)@ == old(out)@ + persisted_text(t@),
{
    string_push_str(out, "\r\x1b[2K");
    string_push_str(out, t);
    string_push_str(out, "\n");
    string_push_str(out, "you> ");
}

fn tool_line(out: &mut String, p: &ParticipantId, tool_name: &str, suffix: &str)
    ensures
        final(out)@ == old(out)@ + tool_line_text(
            label_of(*p) + " debug> tool "@ + tool_name@ + suffix@,
        ),
{
    let mut t = participant_label(p).to_owned();
    string_push_str(&mut t, " debug> tool ");
    string_push_str(&mut t, tool_name);
    string_push_str(&mut t, suffix);
    string_push_str(out, "\r\x1b[2K");
    string_push_str(out, "\x1b[36m");
    string_push_str(out, t.as_str());
    string_push_str(out, "\x1b[0m\n");
    string_push_str(out, "you> ");
}

fn labelled(p: &ParticipantId, middle: &str, t: &str) -> (r: String)
    ensures
        r@ == label_of(*p) + middle@ + t@,
{
    let mut s = participant_label(p).to_owned();
    string_push_str(&mut s, middle);
    string_push_str(&mut s, t);
    s
}

impl ConsoleRenderer {
    /// The state this renderer is in.
    pub closed spec fn view(&self) -> RenderView {
        RenderView {
            has_delta: self.current_message_has_delta,
            loading: self.loading_participant,
            loading_frame: self.loading_frame,
            ephemeral: self.ephemeral_line_active,
            status: match self.active_status_line {
                Some(t) => Some(t@),
                None => None,
            },
            status_frame: self.status_frame,
        }
    }

    /// A console showing nothing yet.
    pub fn new() -> (r: Self)
        ensures
            r.view() == (RenderView {
                has_delta: false,
                loading: None,
                loading_frame: 0,
                ephemeral: false,
                status: None,
                status_frame: 0,
            }),
    {
        ConsoleRenderer {
            current_message_has_delta: false,
            loading_participant: None,
            loading_frame: 0,
            ephemeral_line_active: false,
            active_status_line: None,
            status_frame: 0,
        }
    }

    fn clear_ephemeral_line(&mut self, out: &mut String)
        ensures
            final(self).view() == cleared(old(self).view()).0,
            final(out)@ == old(out)@ + cleared(old(self).view()).1,
    {
        if self.ephemeral_line_active {
            string_push_str(out, "\r\x1b[2K");
            self.ephemeral_line_active = false;
        }
        self.active_status_line = None;
    }

    /// Takes one event of the session and gives what to print for it.
    pub fn on_event(&mut self, event: &OutboundTransportEvent) -> (r: String)
        ensures
            (final(self).view(), r@) == render_event(old(self).view(), *event),
    {
        let mut out = String::new();
        match event {
            OutboundTransportEvent::MessageStarted { participant } => {
                self.clear_ephemeral_line(&mut out);
                self.current_message_has_delta = false;
                self.loading_frame = 0;
                self.loading_participant = Some(participant.copy());
                let l = loading_line(participant, 0);
                string_push_str(&mut out, l.as_str());
            },
            OutboundTransportEvent::MessageDelta { participant, text } => {
                if !self.current_message_has_delta {
                    self.clear_ephemeral_line(&mut out);
                    self.loading_participant = None;
                    string_push_str(&mut out, "\r");
                    string_push_str(&mut out, participant_label(participant));
                    string_push_str(&mut out, "> ");
                    self.current_message_has_delta = true;
                }
                string_push_str(&mut out, text.as_str());
            },
            OutboundTransportEvent::MessageCompleted { .. } => {
                let had_delta = self.current_message_has_delta;
                self.current_message_has_delta = false;
                self.loading_participant = None;
                self.active_status_line = None;
                self.ephemeral_line_active = false;
                if had_delta {
                    string_push_str(&mut out, "\n");
                    string_push_str(&mut out, "you> ");
                } else {
                    string_push_str(&mut out, "\r\x1b[2K");
                }
            },
            OutboundTransportEvent::Status { participant, text } => {
                let line = labelled(participant, " status> ", text.as_str());
                self.status_frame = 0;
                let frame = status_line(line.as_str(), 0);
                string_push_str(&mut out, frame.as_str());
                self.active_status_line = Some(line);
                self.ephemeral_line_active = true;
            },
            OutboundTransportEvent::ToolCallStarted { participant, tool_name } => {
                self.clear_ephemeral_line(&mut out);
                tool_line(&mut out, participant, tool_name.as_str(), " ...");
            },
            OutboundTransportEvent::ToolCallDelta { participant, tool_name, .. } => {
                self.clear_ephemeral_line(&mut out);
                tool_line(&mut out, participant, tool_name.as_str(), " arguments ...");
            },
            OutboundTransportEvent::ToolCallCompleted { participant, tool_name } => {
                self.clear_ephemeral_line(&mut out);
                tool_line(&mut out, participant, tool_name.as_str(), " ready");
            },
            OutboundTransportEvent::ActionPlanned { participant, action } => {
                self.clear_ephemeral_line(&mut out);
                let line = labelled(participant, " action> ", action.as_str());
                persisted_line(&mut out, line.as_str());
            },
            OutboundTransportEvent::ActionCompleted { participant, status } => {
                self.clear_ephemeral_line(&mut out);
                let line = labelled(participant, " status> ", status.as_str());
                persisted_line(&mut out, line.as_str());
            },
            OutboundTransportEvent::ActionFailed { participant, status } => {
                self.clear_ephemeral_line(&mut out);
                let line = labelled(participant, " status> ", status.as_str());
                persisted_line(&mut out, line.as_str());
            },
        }
        out
    }

    /// Whether the spinner runs.
    pub fn spinner_active(&self) -> (r: bool)
        ensures
            r == spinning(self.view()),
    {
        !self.current_message_has_delta && (self.loading_participant.is_some()
            || self.active_status_line.is_some())
    }

    /// Takes one spinner tick and gives what to print for it.
    pub fn on_tick(&mut self) -> (r: String)
        ensures
            (final(self).view(), r@) == render_tick(old(self).view()),
    {
        match &self.loading_participant {
            Some(p) => {
                let f = if self.loading_frame == usize::MAX {
                    0
                } else {
                    self.loading_frame + 1
                };
                let l = loading_line(p, f);
                self.loading_frame = f;
                l
            },
            None => match &self.active_status_line {
                Some(t) => {
                    let f = if self.status_frame == usize::MAX {
                        0
                    } else {
                        self.status_frame + 1
                    };
                    let l = status_line(t.as_str(), f);
                    self.status_frame = f;
                    self.ephemeral_line_active = true;
                    l
                },
                None => String::new(),
            },
        }
    }
}

} // verus!
