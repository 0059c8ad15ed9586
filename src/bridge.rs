use vstd::prelude::*;

verus! {

/// Something that happened on one side of a console session.
pub enum BridgeEvent {
    /// One read of the process's standard output; an empty read means the
    /// process closed it.
    ProcessOutput(Vec<u8>),
    /// Reading the process's standard output failed.
    ProcessOutputFailed,
    /// A text or binary frame from the client, with its payload.
    ClientData(Vec<u8>),
    /// A ping or pong frame from the client: nothing to relay.
    ClientControl,
    /// A close frame from the client.
    ClientClosed,
    /// The client's transport failed.
    ClientFailed,
    /// Writing to the process's standard input failed.
    ProcessInputFailed,
}

pub ghost enum EventView {
    ProcessOutput(Seq<u8>),
    ProcessOutputFailed,
    ClientData(Seq<u8>),
    ClientControl,
    ClientClosed,
    ClientFailed,
    ProcessInputFailed,
}

impl View for BridgeEvent {
    type V = EventView;

    open spec fn view(&self) -> EventView {
        match self {
            BridgeEvent::ProcessOutput(b) => EventView::ProcessOutput(b@),
            BridgeEvent::ProcessOutputFailed => EventView::ProcessOutputFailed,
            BridgeEvent::ClientData(b) => EventView::ClientData(b@),
            BridgeEvent::ClientControl => EventView::ClientControl,
            BridgeEvent::ClientClosed => EventView::ClientClosed,
            BridgeEvent::ClientFailed => EventView::ClientFailed,
            BridgeEvent::ProcessInputFailed => EventView::ProcessInputFailed,
        }
    }
}

/// What the session does in answer to an event.
pub enum BridgeAction {
    /// Queue the bytes for the client as one binary frame. `first` is set on
    /// the first output of the session: the machine has shown that it runs.
    SendFrame { frame: Vec<u8>, first: bool },
    /// Write the bytes, as they are, to the process's standard input.
    WriteInput(Vec<u8>),
    /// Nothing to do.
    Idle,
    /// Both directions are closed: close the client connection.
    Finish,
}

pub ghost enum ActionView {
    SendFrame { frame: Seq<u8>, first: bool },
    WriteInput(Seq<u8>),
    Idle,
    Finish,
}

impl View for BridgeAction {
    type V = ActionView;

    open spec fn view(&self) -> ActionView {
        match self {
            BridgeAction::SendFrame { frame, first } => ActionView::SendFrame {
                frame: frame@,
                first: *first,
            },
            BridgeAction::WriteInput(b) => ActionView::WriteInput(b@),
            BridgeAction::Idle => ActionView::Idle,
            BridgeAction::Finish => ActionView::Finish,
        }
    }
}

/// The state of one console session: which of its two directions still
/// relay, and whether the process has produced output yet.
#[derive(Clone, Copy, PartialEq, Eq, Structural, Debug)]
pub struct BridgeSession {
    /// Output of the process still goes to the client.
    pub output_open: bool,
    /// Frames of the client still go to the process.
    pub input_open: bool,
    /// Some output has been relayed.
    pub output_seen: bool,
}

/// Closes the direction from the process to the client.
pub open spec fn close_output(s: BridgeSession) -> (BridgeSession, ActionView) {
    let t = BridgeSession { output_open: false, ..s };
    (t, if t.input_open { ActionView::Idle } else { ActionView::Finish })
}

/// Closes the direction from the client to the process.
pub open spec fn close_input(s: BridgeSession) -> (BridgeSession, ActionView) {
    let t = BridgeSession { input_open: false, ..s };
    (t, if t.output_open { ActionView::Idle } else { ActionView::Finish })
}

/// One step of a session. A direction that has closed ignores its events; a
/// failure closes only its own direction; the session finishes when the
/// second direction closes.
pub open spec fn next(s: BridgeSession, e: EventView) -> (BridgeSession, ActionView) {
    match e {
        EventView::ProcessOutput(bytes) => if !s.output_open {
            (s, ActionView::Idle)
        } else if bytes.len() == 0 {
            close_output(s)
        } else {
            (
                BridgeSession { output_seen: true, ..s },
                ActionView::SendFrame { frame: bytes, first: !s.output_seen },
            )
        },
        EventView::ProcessOutputFailed => if !s.output_open {
            (s, ActionView::Idle)
        } else {
            close_output(s)
        },
        EventView::ClientData(bytes) => if !s.input_open {
            (s, ActionView::Idle)
        } else {
            (s, ActionView::WriteInput(bytes))
        },
        EventView::ClientControl => (s, ActionView::Idle),
        EventView::ClientClosed | EventView::ClientFailed | EventView::ProcessInputFailed => if !s.input_open {
            (s, ActionView::Idle)
        } else {
            close_input(s)
        },
    }
}

/// A session run through a sequence of events: the state it ends in and the
/// actions it took, one per event.
pub open spec fn run(s: BridgeSession, events: Seq<EventView>) -> (BridgeSession, Seq<ActionView>)
    decreases events.len(),
{
    if events.len() == 0 {
        (s, Seq::empty())
    } else {
        let (t, acts) = run(s, events.drop_last());
        let (u, a) = next(t, events.last());
        (u, acts.push(a))
    }
}

impl BridgeSession {
    pub open spec fn finished(self) -> bool {
        !self.output_open && !self.input_open
    }

    /// A session that has just attached: both directions relay.
    pub fn new() -> (r: Self)
        ensures
            r.output_open && r.input_open && !r.output_seen,
    {
        BridgeSession { output_open: true, input_open: true, output_seen: false }
    }

    pub fn is_finished(&self) -> (r: bool)
        ensures
            r == self.finished(),
    {
        !self.output_open && !self.input_open
    }

    fn close_output(&mut self) -> (r: BridgeAction)
        ensures
            (*final(self), r@) == close_output(*old(self)),
    {
        self.output_open = false;
        if self.input_open {
            BridgeAction::Idle
        } else {
            BridgeAction::Finish
        }
    }

    fn close_input(&mut self) -> (r: BridgeAction)
        ensures
            (*final(self), r@) == close_input(*old(self)),
    {
        self.input_open = false;
        if self.output_open {
            BridgeAction::Idle
        } else {
            BridgeAction::Finish
        }
    }

    /// Takes one event and says what to do about it.
    pub fn step(&mut self, event: BridgeEvent) -> (r: BridgeAction)
        ensures
            (*final(self), r@) == next(*old(self), event@),
    {
        match event {
            BridgeEvent::ProcessOutput(bytes) => {
                if !self.output_open {
                    BridgeAction::Idle
                } else if bytes.len() == 0 {
                    self.close_output()
                } else {
                    let first = !self.output_seen;
                    self.output_seen = true;
                    BridgeAction::SendFrame { frame: bytes, first }
                }
            },
            BridgeEvent::ProcessOutputFailed => {
                if !self.output_open {
                    BridgeAction::Idle
                } else {
                    self.close_output()
                }
            },
            BridgeEvent::ClientData(bytes) => {
                if !self.input_open {
                    BridgeAction::Idle
                } else {
                    BridgeAction::WriteInput(bytes)
                }
            },
            BridgeEvent::ClientControl => BridgeAction::Idle,
            BridgeEvent::ClientClosed | BridgeEvent::ClientFailed | BridgeEvent::ProcessInputFailed => {
                if !self.input_open {
                    BridgeAction::Idle
                } else {
                    self.close_input()
                }
            },
        }
    }
}


pub open spec fn outputs(chunks: Seq<Seq<u8>>) -> Seq<EventView> {
    chunks.map_values(|c: Seq<u8>| EventView::ProcessOutput(c))
}

/// While the output direction is open, each read of the process's output
/// goes to the client as one frame holding exactly its bytes, in the order
/// of the reads: nothing is split, merged or reordered.
pub proof fn lemma_frames_follow_reads(s: BridgeSession, chunks: Seq<Seq<u8>>)
    requires
        s.output_open,
        forall|i: int| 0 <= i < chunks.len() ==> (#[trigger] chunks[i]).len() > 0,
    ensures
        run(s, outputs(chunks)).0.output_open,
        run(s, outputs(chunks)).0.input_open == s.input_open,
        run(s, outputs(chunks)).1.len() == chunks.len(),
        forall|i: int|
            0 <= i < chunks.len() ==> (#[trigger] run(s, outputs(chunks)).1[i]) is SendFrame
                && run(s, outputs(chunks)).1[i]->SendFrame_frame == chunks[i],
    decreases chunks.len(),
{
    if chunks.len() > 0 {
        let rest = chunks.drop_last();
        assert(outputs(chunks).drop_last() =~= outputs(rest));
        lemma_frames_follow_reads(s, rest);
        assert(outputs(chunks).last() == EventView::ProcessOutput(chunks.last()));
        assert(chunks.last() == chunks[chunks.len() - 1]);
        let acts = run(s, outputs(chunks)).1;
        assert forall|i: int| 0 <= i < chunks.len() implies (#[trigger] acts[i]) is SendFrame
            && acts[i]->SendFrame_frame == chunks[i] by {
            if i < rest.len() {
                assert(acts[i] == run(s, outputs(rest)).1[i]);
                assert(rest[i] == chunks[i]);
            }
        }
    } else {
        assert(outputs(chunks) =~= Seq::<EventView>::empty());
    }
}

pub open spec fn client_frames(frames: Seq<Seq<u8>>) -> Seq<EventView> {
    frames.map_values(|f: Seq<u8>| EventView::ClientData(f))
}

/// While the input direction is open, each frame from the client is written
/// to the process's input as it is, one write per frame, in the order the
/// frames came.
pub proof fn lemma_writes_follow_frames(s: BridgeSession, frames: Seq<Seq<u8>>)
    requires
        s.input_open,
    ensures
        run(s, client_frames(frames)).0 == s,
        run(s, client_frames(frames)).1.len() == frames.len(),
        forall|i: int|
            0 <= i < frames.len() ==> #[trigger] run(s, client_frames(frames)).1[i]
                == ActionView::WriteInput(frames[i]),
    decreases frames.len(),
{
    if frames.len() > 0 {
        let rest = frames.drop_last();
        assert(client_frames(frames).drop_last() =~= client_frames(rest));
        lemma_writes_follow_frames(s, rest);
        assert(client_frames(frames).last() == EventView::ClientData(frames.last()));
        let acts = run(s, client_frames(frames)).1;
        assert forall|i: int| 0 <= i < frames.len() implies #[trigger] acts[i]
            == ActionView::WriteInput(frames[i]) by {
            if i < rest.len() {
                assert(acts[i] == run(s, client_frames(rest)).1[i]);
                assert(rest[i] == frames[i]);
            }
        }
    } else {
        assert(client_frames(frames) =~= Seq::<EventView>::empty());
    }
}

/// A session asks for the client to be closed exactly at the step in which
/// its second direction closes, and never again after that.
pub proof fn lemma_finish_when_both_closed(s: BridgeSession, e: EventView)
    ensures
        (next(s, e).1 is Finish) == (!s.finished() && next(s, e).0.finished()),
        s.finished() ==> next(s, e).0 == s,
{
}

} // verus!
