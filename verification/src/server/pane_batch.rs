//! A batch of input events for a pane with a child of its own, one event after the other.
//!
//! The caller owns the pane. It performs each step and hands back what came of it; the steps
//! of one event are over before the pane is looked at for the next.
use vstd::prelude::*;

use super::pane_input::{
    apply_client_terminal_input_event, mouse_send, pane_action, wheel_bytes,
    AttachScrollDirection, ClientMouseKind, ClientPaneInputEvent, MouseReport, PaneAction,
    PaneFacts, ScrollPlan,
};

verus! {

/// What is encoded for the child.
#[derive(Clone, Copy, Debug, PartialEq, Eq, Structural)]
pub enum Encoding {
    Wheel(AttachScrollDirection),
    Alternate,
    Mouse(ClientMouseKind),
    Key,
}

/// What the child is sent.
#[derive(Clone, Copy, Debug, PartialEq, Eq, Structural)]
pub enum Carrier {
    Wheel,
    Alternate,
    Mouse,
    Key,
    Text,
    Paste,
}

/// What a batch waits for.
#[derive(Clone, Copy, Debug, PartialEq, Eq, Structural)]
pub enum BatchPhase {
    Looking,
    Scrolling,
    Encoding(Encoding),
    Sending(Carrier),
    Ended,
}

/// What is done next.
#[derive(Debug, PartialEq, Eq)]
pub enum PaneStep {
    /// Say what the pane is like.
    Look,
    /// Scroll the host's history.
    HostScroll { direction: AttachScrollDirection, lines: usize },
    /// Reset the host's scroll where that is asked for, and encode the mouse.
    EncodeMouse { reset: bool, report: MouseReport },
    /// Reset the host's scroll, and encode the cursor keys that stand for the wheel.
    EncodeAlternate(AttachScrollDirection),
    /// Reset the host's scroll, and encode the key of the event at this place.
    EncodeKey(usize),
    /// Reset the host's scroll where that is asked for, and send the bytes.
    Send { reset: bool, bytes: Vec<u8> },
    /// Reset the host's scroll, and paste the text.
    Paste(String),
    Finished,
    Failed(String),
}

/// What came of a step.
pub enum PaneReply {
    Facts(PaneFacts),
    Done,
    Encoded(Option<Vec<u8>>),
    Sent(Result<(), String>),
}

/// The events of a batch, the place of the one that is dealt with, and what it waits for.
pub struct PaneBatch {
    pub events: Vec<ClientPaneInputEvent>,
    pub at: usize,
    pub host_page_keys: bool,
    pub phase: BatchPhase,
}

impl Carrier {
    /// How the failure to send is told.
    pub open spec fn complaint(self) -> Seq<char> {
        match self {
            Carrier::Wheel => "terminal attach mouse wheel input failed: "@,
            Carrier::Alternate => "terminal attach alternate scroll input failed: "@,
            Carrier::Mouse => "targeted pane mouse input failed: "@,
            Carrier::Key => "targeted pane key input failed: "@,
            Carrier::Text => "targeted pane text input failed: "@,
            Carrier::Paste => "targeted pane paste failed: "@,
        }
    }

    fn complain(self, error: &str) -> (r: String)
        ensures
            r@ == self.complaint() + error@,
    {
        let prefix: &'static str = match self {
            Carrier::Wheel => "terminal attach mouse wheel input failed: ",
            Carrier::Alternate => "terminal attach alternate scroll input failed: ",
            Carrier::Mouse => "targeted pane mouse input failed: ",
            Carrier::Key => "targeted pane key input failed: ",
            Carrier::Text => "targeted pane text input failed: ",
            Carrier::Paste => "targeted pane paste failed: ",
        };
        prefix.to_owned().concat(error)
    }
}

impl PaneBatch {
    pub open spec fn wf(self) -> bool {
        self.phase == BatchPhase::Ended || self.at < self.events@.len()
    }

    /// A reply of the kind that the batch waits for.
    pub open spec fn awaits(self, reply: PaneReply) -> bool {
        match self.phase {
            BatchPhase::Looking => reply is Facts,
            BatchPhase::Scrolling => reply is Done,
            BatchPhase::Encoding(_) => reply is Encoded,
            BatchPhase::Sending(_) => reply is Sent,
            BatchPhase::Ended => false,
        }
    }

    /// The event is dealt with: the next one follows, if there is one.
    pub open spec fn moves_on(self, after: Self, step: PaneStep) -> bool {
        if self.at + 1 < self.events@.len() {
            step == PaneStep::Look && after.at == self.at + 1 && after == (PaneBatch {
                at: after.at,
                phase: BatchPhase::Looking,
                ..self
            })
        } else {
            step == PaneStep::Finished && after == (PaneBatch { phase: BatchPhase::Ended, ..self })
        }
    }

    /// The event goes on.
    pub open spec fn waits(self, phase: BatchPhase, after: Self) -> bool {
        after == (PaneBatch { phase, ..self })
    }

    /// The batch ends here, and the events that follow are not dealt with.
    pub open spec fn fails(self, message: Seq<char>, after: Self, step: PaneStep) -> bool {
        self.waits(BatchPhase::Ended, after) && (step matches PaneStep::Failed(text) && text@
            == message)
    }

    /// What an action of an event comes to.
    pub open spec fn performs(self, action: PaneAction, after: Self, step: PaneStep) -> bool {
        match action {
            PaneAction::Ignore | PaneAction::Scroll(ScrollPlan::Input(_), _) => self.moves_on(
                after,
                step,
            ),
            PaneAction::Scroll(ScrollPlan::Host { direction, lines }, _)
            | PaneAction::HostScroll { direction, lines } => self.waits(BatchPhase::Scrolling, after)
                && step == (PaneStep::HostScroll { direction, lines }),
            PaneAction::Scroll(ScrollPlan::Report(direction), report) => self.waits(
                BatchPhase::Encoding(Encoding::Wheel(direction)),
                after,
            ) && step == (PaneStep::EncodeMouse { reset: true, report }),
            PaneAction::Scroll(ScrollPlan::Alternate(direction), _) => self.waits(
                BatchPhase::Encoding(Encoding::Alternate),
                after,
            ) && step == PaneStep::EncodeAlternate(direction),
            PaneAction::Mouse(report) => self.waits(
                BatchPhase::Encoding(Encoding::Mouse(report.kind)),
                after,
            ) && step == (PaneStep::EncodeMouse { reset: false, report }),
            PaneAction::Key => self.waits(BatchPhase::Encoding(Encoding::Key), after) && step
                == PaneStep::EncodeKey(self.at),
            PaneAction::Bytes(bytes) => self.waits(BatchPhase::Sending(Carrier::Text), after)
                && step == (PaneStep::Send { reset: true, bytes }),
            PaneAction::Paste(text) => self.waits(BatchPhase::Sending(Carrier::Paste), after)
                && step == PaneStep::Paste(text),
            PaneAction::Refuse => self.fails(
                "non-pane input reached targeted pane input"@,
                after,
                step,
            ),
        }
    }

    /// What an encoding comes to. A wheel that the child is to be told of has to be
    /// encoded; nothing is sent of the others where nothing comes of them. The host's scroll
    /// was reset before, except for the mouse: there it is reset only where something is
    /// sent, and never because the mouse only moved.
    pub open spec fn encodes(
        self,
        encoding: Encoding,
        encoded: Option<Vec<u8>>,
        after: Self,
        step: PaneStep,
    ) -> bool {
        match encoding {
            Encoding::Wheel(direction) => match encoded {
                None => self.fails(
                    match direction {
                        AttachScrollDirection::Up =>
                            "failed to encode terminal attach mouse wheel event: ScrollUp"@,
                        AttachScrollDirection::Down =>
                            "failed to encode terminal attach mouse wheel event: ScrollDown"@,
                    },
                    after,
                    step,
                ),
                Some(bytes) => self.waits(BatchPhase::Sending(Carrier::Wheel), after) && step == (
                PaneStep::Send { reset: false, bytes }),
            },
            Encoding::Alternate => match encoded {
                None => self.moves_on(after, step),
                Some(bytes) => self.waits(BatchPhase::Sending(Carrier::Alternate), after) && step
                    == (PaneStep::Send { reset: false, bytes }),
            },
            Encoding::Mouse(kind) => if encoded matches Some(bytes) && bytes@.len() > 0 {
                self.waits(BatchPhase::Sending(Carrier::Mouse), after) && step == (PaneStep::Send {
                    reset: kind != ClientMouseKind::Moved,
                    bytes: encoded->0,
                })
            } else {
                self.moves_on(after, step)
            },
            Encoding::Key => if encoded matches Some(bytes) && bytes@.len() > 0 {
                self.waits(BatchPhase::Sending(Carrier::Key), after) && step == (PaneStep::Send {
                    reset: false,
                    bytes: encoded->0,
                })
            } else {
                self.moves_on(after, step)
            },
        }
    }

    /// What a reply comes to.
    pub open spec fn answers(self, reply: PaneReply, after: Self, step: PaneStep) -> bool {
        match reply {
            PaneReply::Facts(facts) => exists|action: PaneAction| #[trigger]
                pane_action(
                    self.events@[self.at as int],
                    facts,
                    self.host_page_keys,
                    action,
                ) && self.performs(action, after, step),
            PaneReply::Done => self.moves_on(after, step),
            PaneReply::Encoded(encoded) => self.encodes(
                self.phase->Encoding_0,
                encoded,
                after,
                step,
            ),
            PaneReply::Sent(Ok(_)) => self.moves_on(after, step),
            PaneReply::Sent(Err(error)) => self.fails(
                self.phase->Sending_0.complaint() + error@,
                after,
                step,
            ),
        }
    }

    /// Begin with the first event, if there is one.
    pub fn apply_client_terminal_input_events(
        events: Vec<ClientPaneInputEvent>,
        host_page_keys: bool,
    ) -> (r: (Self, PaneStep))
        ensures
            r.0.wf(),
            r.0.events == events,
            r.0.at == 0,
            r.0.host_page_keys == host_page_keys,
            events@.len() > 0 ==> r.0.phase == BatchPhase::Looking && r.1 == PaneStep::Look,
            events@.len() == 0 ==> r.0.phase == BatchPhase::Ended && r.1 == PaneStep::Finished,
    {
        if events.len() == 0 {
            return (
                PaneBatch { events, at: 0, host_page_keys, phase: BatchPhase::Ended },
                PaneStep::Finished,
            );
        }
        (
            PaneBatch { events, at: 0, host_page_keys, phase: BatchPhase::Looking },
            PaneStep::Look,
        )
    }

    fn move_on(&mut self) -> (r: PaneStep)
        requires
            old(self).at < old(self).events@.len(),
        ensures
            final(self).wf(),
            old(self).moves_on(*final(self), r),
    {
        if self.at < self.events.len() - 1 {
            self.at = self.at + 1;
            self.phase = BatchPhase::Looking;
            PaneStep::Look
        } else {
            self.phase = BatchPhase::Ended;
            PaneStep::Finished
        }
    }

    fn fail(&mut self, message: String) -> (r: PaneStep)
        ensures
            final(self).wf(),
            old(self).fails(message@, *final(self), r),
    {
        self.phase = BatchPhase::Ended;
        PaneStep::Failed(message)
    }

    fn perform(&mut self, action: PaneAction) -> (r: PaneStep)
        requires
            old(self).at < old(self).events@.len(),
        ensures
            final(self).wf(),
            old(self).performs(action, *final(self), r),
    {
        match action {
            PaneAction::Ignore => self.move_on(),
            PaneAction::Scroll(plan, report) => match plan {
                ScrollPlan::Input(_) => self.move_on(),
                ScrollPlan::Host { direction, lines } => {
                    self.phase = BatchPhase::Scrolling;
                    PaneStep::HostScroll { direction, lines }
                },
                ScrollPlan::Report(direction) => {
                    self.phase = BatchPhase::Encoding(Encoding::Wheel(direction));
                    PaneStep::EncodeMouse { reset: true, report }
                },
                ScrollPlan::Alternate(direction) => {
                    self.phase = BatchPhase::Encoding(Encoding::Alternate);
                    PaneStep::EncodeAlternate(direction)
                },
            },
            PaneAction::Mouse(report) => {
                self.phase = BatchPhase::Encoding(Encoding::Mouse(report.kind));
                PaneStep::EncodeMouse { reset: false, report }
            },
            PaneAction::HostScroll { direction, lines } => {
                self.phase = BatchPhase::Scrolling;
                PaneStep::HostScroll { direction, lines }
            },
            PaneAction::Key => {
                self.phase = BatchPhase::Encoding(Encoding::Key);
                PaneStep::EncodeKey(self.at)
            },
            PaneAction::Bytes(bytes) => {
                self.phase = BatchPhase::Sending(Carrier::Text);
                PaneStep::Send { reset: true, bytes }
            },
            PaneAction::Paste(text) => {
                self.phase = BatchPhase::Sending(Carrier::Paste);
                PaneStep::Paste(text)
            },
            PaneAction::Refuse => self.fail("non-pane input reached targeted pane input".to_owned()),
        }
    }

    fn note_encoded(&mut self, encoding: Encoding, encoded: Option<Vec<u8>>) -> (r: PaneStep)
        requires
            old(self).at < old(self).events@.len(),
        ensures
            final(self).wf(),
            old(self).encodes(encoding, encoded, *final(self), r),
    {
        match encoding {
            Encoding::Wheel(direction) => match wheel_bytes(direction, encoded) {
                Ok(bytes) => {
                    self.phase = BatchPhase::Sending(Carrier::Wheel);
                    PaneStep::Send { reset: false, bytes }
                },
                Err(message) => self.fail(message.to_owned()),
            },
            Encoding::Alternate => match encoded {
                Some(bytes) => {
                    self.phase = BatchPhase::Sending(Carrier::Alternate);
                    PaneStep::Send { reset: false, bytes }
                },
                None => self.move_on(),
            },
            Encoding::Mouse(kind) => match mouse_send(kind, encoded) {
                Some((reset, bytes)) => {
                    self.phase = BatchPhase::Sending(Carrier::Mouse);
                    PaneStep::Send { reset, bytes }
                },
                None => self.move_on(),
            },
            Encoding::Key => match encoded {
                Some(bytes) => if bytes.len() > 0 {
                    self.phase = BatchPhase::Sending(Carrier::Key);
                    PaneStep::Send { reset: false, bytes }
                } else {
                    self.move_on()
                },
                None => self.move_on(),
            },
        }
    }

    /// Take what came of the last step, and say what is done next.
    pub fn next(&mut self, reply: PaneReply) -> (r: PaneStep)
        requires
            old(self).wf(),
            old(self).awaits(reply),
        ensures
            final(self).wf(),
            old(self).answers(reply, *final(self), r),
    {
        match reply {
            PaneReply::Facts(facts) => {
                let action = apply_client_terminal_input_event(
                    &self.events[self.at],
                    facts,
                    self.host_page_keys,
                );
                let ghost taken = action;
                let step = self.perform(action);
                assert(pane_action(
                    old(self).events@[old(self).at as int],
                    facts,
                    old(self).host_page_keys,
                    taken,
                ) && old(self).performs(taken, *self, step));
                step
            },
            PaneReply::Done => self.move_on(),
            PaneReply::Encoded(encoded) => match self.phase {
                BatchPhase::Encoding(encoding) => self.note_encoded(encoding, encoded),
                _ => self.move_on(),
            },
            PaneReply::Sent(sent) => match sent {
                Ok(_) => self.move_on(),
                Err(error) => match self.phase {
                    BatchPhase::Sending(carrier) => self.fail(carrier.complain(error.as_str())),
                    _ => self.move_on(),
                },
            },
        }
    }
}

/// Events are dealt with in their order: no reply goes back to an earlier one or past the
/// next one, and the events themselves stay as they are.
pub proof fn events_keep_their_order(
    before: PaneBatch,
    reply: PaneReply,
    after: PaneBatch,
    step: PaneStep,
)
    requires
        before.wf(),
        before.awaits(reply),
        before.answers(reply, after, step),
    ensures
        after.events == before.events,
        before.at <= after.at <= before.at + 1,
        after.at > before.at ==> step == PaneStep::Look,
{
}

/// A mouse that only moves never resets the host's scroll.
pub proof fn moving_the_mouse_keeps_the_scroll(
    batch: PaneBatch,
    encoded: Option<Vec<u8>>,
    after: PaneBatch,
    step: PaneStep,
)
    requires
        batch.wf(),
        batch.phase == BatchPhase::Encoding(Encoding::Mouse(ClientMouseKind::Moved)),
        batch.answers(PaneReply::Encoded(encoded), after, step),
    ensures
        !(step matches PaneStep::Send { reset, .. } && reset),
        !(step is Paste),
        !(step is EncodeKey),
        !(step is EncodeAlternate),
{
}

/// Once a batch has failed, it waits for nothing more.
pub proof fn failed_batch_stops(
    before: PaneBatch,
    reply: PaneReply,
    after: PaneBatch,
    step: PaneStep,
    late: PaneReply,
)
    requires
        before.wf(),
        before.awaits(reply),
        before.answers(reply, after, step),
        step is Failed,
    ensures
        after.phase == BatchPhase::Ended,
        !after.awaits(late),
{
}

/// What is to be done with an event is asked of the pane as it stands: the host scrolls the
/// way and as far as it should, a wheel and a mouse are encoded as they were reported, a key
/// is that of the event in hand, and text is sent or pasted as it is.
pub proof fn actions_are_carried_out(batch: PaneBatch, after: PaneBatch, step: PaneStep)
    ensures
        batch.performs(PaneAction::Ignore, after, step) ==> step == PaneStep::Look || step
            == PaneStep::Finished,
        forall|direction: AttachScrollDirection, lines: usize| #[trigger]
            batch.performs(PaneAction::HostScroll { direction, lines }, after, step) ==> step == (
            PaneStep::HostScroll { direction, lines }) && after.phase == BatchPhase::Scrolling
                && after.at == batch.at,
        forall|direction: AttachScrollDirection, lines: usize, report: MouseReport| #[trigger]
            batch.performs(
                PaneAction::Scroll(ScrollPlan::Host { direction, lines }, report),
                after,
                step,
            ) ==> step == (PaneStep::HostScroll { direction, lines }) && after.phase
                == BatchPhase::Scrolling && after.at == batch.at,
        forall|direction: AttachScrollDirection, report: MouseReport| #[trigger]
            batch.performs(PaneAction::Scroll(ScrollPlan::Report(direction), report), after, step)
                ==> step == (PaneStep::EncodeMouse { reset: true, report }) && after.phase
                == BatchPhase::Encoding(Encoding::Wheel(direction)) && after.at == batch.at,
        forall|direction: AttachScrollDirection, report: MouseReport| #[trigger]
            batch.performs(
                PaneAction::Scroll(ScrollPlan::Alternate(direction), report),
                after,
                step,
            ) ==> step == PaneStep::EncodeAlternate(direction) && after.phase
                == BatchPhase::Encoding(Encoding::Alternate) && after.at == batch.at,
        forall|report: MouseReport| #[trigger]
            batch.performs(PaneAction::Mouse(report), after, step) ==> step == (
            PaneStep::EncodeMouse { reset: false, report }) && after.phase == BatchPhase::Encoding(
                Encoding::Mouse(report.kind),
            ) && after.at == batch.at,
        batch.performs(PaneAction::Key, after, step) ==> step == PaneStep::EncodeKey(batch.at)
            && after.phase == BatchPhase::Encoding(Encoding::Key) && after.at == batch.at,
        forall|bytes: Vec<u8>| #[trigger]
            batch.performs(PaneAction::Bytes(bytes), after, step) ==> step == (PaneStep::Send {
                reset: true,
                bytes,
            }) && after.phase == BatchPhase::Sending(Carrier::Text) && after.at == batch.at,
        forall|text: String| #[trigger]
            batch.performs(PaneAction::Paste(text), after, step) ==> step == PaneStep::Paste(text)
                && after.phase == BatchPhase::Sending(Carrier::Paste) && after.at == batch.at,
        batch.performs(PaneAction::Refuse, after, step) ==> (step matches PaneStep::Failed(text)
            && text@ == "non-pane input reached targeted pane input"@),
{
}

/// What was encoded is sent, as it is; what has no encoding is passed over, but for a wheel
/// that was to be reported, which fails and says which way it turned.
pub proof fn encoded_input_is_sent(
    batch: PaneBatch,
    encoded: Option<Vec<u8>>,
    after: PaneBatch,
    step: PaneStep,
)
    requires
        batch.phase is Encoding,
        batch.answers(PaneReply::Encoded(encoded), after, step),
    ensures
        (encoded matches Some(bytes) && bytes@.len() > 0) ==> (step matches PaneStep::Send {
            bytes,
            ..
        } && bytes == encoded->0) && after.phase is Sending && after.at == batch.at,
        batch.phase == BatchPhase::Encoding(Encoding::Wheel(AttachScrollDirection::Up))
            && encoded is None ==> (step matches PaneStep::Failed(text) && text@
            == "failed to encode terminal attach mouse wheel event: ScrollUp"@),
        batch.phase == BatchPhase::Encoding(Encoding::Wheel(AttachScrollDirection::Down))
            && encoded is None ==> (step matches PaneStep::Failed(text) && text@
            == "failed to encode terminal attach mouse wheel event: ScrollDown"@),
        !(batch.phase matches BatchPhase::Encoding(Encoding::Wheel(_))) && encoded is None ==> step
            == PaneStep::Look || step == PaneStep::Finished,
        (batch.phase matches BatchPhase::Encoding(Encoding::Mouse(kind)) && kind
            != ClientMouseKind::Moved && step is Send) ==> (step matches PaneStep::Send {
            reset,
            ..
        } && reset),
        !(batch.phase matches BatchPhase::Encoding(Encoding::Mouse(_))) && step is Send ==> (
        step matches PaneStep::Send { reset, .. } && !reset),
        step is Send ==> (match batch.phase->Encoding_0 {
            Encoding::Wheel(_) => after.phase == BatchPhase::Sending(Carrier::Wheel),
            Encoding::Alternate => after.phase == BatchPhase::Sending(Carrier::Alternate),
            Encoding::Mouse(_) => after.phase == BatchPhase::Sending(Carrier::Mouse),
            Encoding::Key => after.phase == BatchPhase::Sending(Carrier::Key),
        }),
{
}

/// An event that was dealt with makes way for the next one, and after the last the batch is
/// finished; one that could not be sent stops the batch and says what was sent and why it
/// failed.
pub proof fn batches_go_through_every_event(
    batch: PaneBatch,
    after: PaneBatch,
    step: PaneStep,
    error: String,
)
    requires
        batch.at < batch.events@.len(),
    ensures
        batch.answers(PaneReply::Done, after, step) || batch.answers(
            PaneReply::Sent(Ok(())),
            after,
            step,
        ) ==> after.events == batch.events && (if batch.at + 1 < batch.events@.len() {
            step == PaneStep::Look && after.at == batch.at + 1 && after.phase == BatchPhase::Looking
        } else {
            step == PaneStep::Finished && after.phase == BatchPhase::Ended
        }),
        batch.phase is Sending && batch.answers(PaneReply::Sent(Err(error)), after, step) ==> (
        step matches PaneStep::Failed(text) && text@ == (match batch.phase->Sending_0 {
            Carrier::Wheel => "terminal attach mouse wheel input failed: "@,
            Carrier::Alternate => "terminal attach alternate scroll input failed: "@,
            Carrier::Mouse => "targeted pane mouse input failed: "@,
            Carrier::Key => "targeted pane key input failed: "@,
            Carrier::Text => "targeted pane text input failed: "@,
            Carrier::Paste => "targeted pane paste failed: "@,
        }) + error@),
{
}

} // verus!
