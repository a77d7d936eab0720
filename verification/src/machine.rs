//! The per-item listing state machine. It decides, step by step, what the
//! browser driver must do next for one item id: inspect the sell indicator,
//! fill and submit the price form, and drive the wallet-signature popup to
//! completion, detecting the popup purely by a window-count delta against the
//! baseline captured before submitting.
//!
//! The driver performs each returned command against the browser and reports
//! the result as the next event; the machine itself performs no interaction.

use vstd::prelude::*;

verus! {

/// An error on which the whole run must stop.
#[derive(Clone, Copy, PartialEq, Eq, Structural, Debug)]
pub enum FatalError {
    /// Navigation to a listing target failed.
    NavigationFailed,
    /// An element was found but clicking, typing, reading its class, or
    /// switching windows failed: the page is in an unexpected state that
    /// retrying cannot safely resolve.
    InteractionFailed,
    /// A selector lookup ran out of its retry budget and the policy says to
    /// fail the run.
    LookupExhausted,
    /// The progress snapshot could not be written; continuing would risk
    /// duplicate paid listing attempts.
    PersistenceFailed,
    /// The progress snapshot on disk could not be read back; the run cannot
    /// safely guess prior state.
    CorruptSnapshot,
    /// The driver reported an event that the current phase cannot receive.
    ProtocolViolation,
}

/// How the workflow for one item ended.
#[derive(Clone, Copy, PartialEq, Eq, Structural, Debug)]
pub enum Outcome {
    /// The full listing flow completed; the id is recorded.
    Listed,
    /// The already-listed marker was found; the id is recorded without
    /// further interaction.
    AlreadyListed,
    /// The sell indicator had no class or an unknown one: nothing to do, and
    /// the id is left unrecorded so an operator can detect markup drift.
    Unrecognized,
    /// A lookup exhausted its retry budget and the policy says to give the
    /// item up and go on; the id is left unrecorded.
    GaveUp,
    /// The run must stop.
    Aborted(FatalError),
}

/// What a selector lookup targets on the page. The driver maps each target
/// to its selector list (primary first, then fallback), so a markup change
/// touches one table only.
#[derive(Clone, Copy, PartialEq, Eq, Structural, Debug)]
pub enum Target {
    /// The sell/listed indicator: primary selector is the already-listed
    /// marker, fallback is the not-yet-listed action link.
    SellIndicator,
    PriceInput,
    SubmitButton,
    /// The scroll/expand control inside the signature popup.
    ScrollControl,
    /// The signature-confirmation control inside the popup.
    SignButton,
}

/// Which window to make active.
#[derive(Clone, Copy, PartialEq, Eq, Structural, Debug)]
pub enum WindowChoice {
    /// The last window in creation order: the freshly opened popup.
    Newest,
    /// The first window: the original tab.
    Original,
}

/// What the sell indicator's class attribute says about the item.
#[derive(Clone, Copy, PartialEq, Eq, Structural, Debug)]
pub enum Disposition {
    AlreadyListed,
    NeedsListing,
    Unrecognized,
}

/// What to do when a lookup's retry budget is spent.
#[derive(Clone, Copy, PartialEq, Eq, Structural, Debug)]
pub enum Exhaustion {
    /// Abort the whole run.
    Fail,
    /// Give the item up, leave it unrecorded, and go on with the next one.
    Escalate,
}

/// The bounded poll-retry policy used uniformly by every selector lookup.
#[derive(Clone, Copy, PartialEq, Eq, Structural, Debug)]
pub struct RetryPolicy {
    /// How many polls a lookup may make before it is exhausted; at least one.
    pub max_attempts: u64,
    /// How long the driver waits between two polls.
    pub poll_interval_secs: u64,
    pub on_exhaustion: Exhaustion,
}

impl RetryPolicy {
    pub open spec fn wf(&self) -> bool {
        self.max_attempts >= 1
    }
}

/// The next interaction the driver must perform.
#[derive(Clone, Copy, PartialEq, Eq, Structural, Debug)]
pub enum Command {
    /// Navigate to the item's listing target.
    Navigate,
    /// Poll the target's selectors once, in priority order.
    Query(Target),
    /// Read the class attribute of the element with this token and classify
    /// it against the page markers.
    ReadClass(u64),
    /// Click the element with this token.
    Click(u64),
    /// Type the run's price text into the element with this token.
    TypePrice(u64),
    /// Count the currently open windows.
    CountWindows,
    /// Make the chosen window active.
    SwitchWindow(WindowChoice),
    /// The item's workflow is over; stop driving it.
    Finish(Outcome),
}

/// What the driver observed after performing the previous command. Element
/// tokens are chosen by the driver when a query hits.
#[derive(Clone, Copy, PartialEq, Eq, Structural, Debug)]
pub enum Event {
    /// Begin the workflow.
    Start,
    NavigateOk,
    NavigateFailed,
    /// One poll over the target's selectors found an element.
    QueryHit(u64),
    /// One full poll found none of the selectors.
    QueryMiss,
    /// The class attribute was read and classified.
    Classified(Disposition),
    ClassReadFailed,
    ClickOk,
    ClickFailed,
    TypeOk,
    TypeFailed,
    WindowCount(usize),
    WindowCountFailed,
    SwitchOk,
    SwitchFailed,
}

/// Where the workflow for one item stands.
#[derive(Clone, Copy, PartialEq, Eq, Structural, Debug)]
pub enum Phase {
    /// Nothing has happened yet.
    Begin,
    /// Navigation to the listing target is under way.
    AwaitNavigate,
    /// Looking for the sell indicator.
    FindSell { attempts: u64 },
    /// The indicator was found; its class is being read.
    AwaitClass { button: u64 },
    /// The not-yet-listed action link is being clicked.
    AwaitSellClick,
    /// Looking for the price input.
    FindPrice { attempts: u64 },
    /// The price text is being typed.
    AwaitType,
    /// Looking for the submit control.
    FindSubmit { attempts: u64 },
    /// Counting windows to capture the baseline before submitting.
    Baseline { submit: u64 },
    /// The submit control is being clicked.
    AwaitSubmitClick { org_len: usize },
    /// Polling the window count until it differs from the baseline.
    AwaitPopup { org_len: usize },
    /// Switching to the newest window.
    ToPopup { org_len: usize },
    /// Looking for the scroll control inside the popup.
    FindScroll { org_len: usize, attempts: u64 },
    /// The scroll control is being clicked.
    AwaitScrollClick { org_len: usize },
    /// Looking for the signature control.
    FindSign { org_len: usize, attempts: u64 },
    /// The signature control is being clicked.
    AwaitSignClick { org_len: usize },
    /// Polling the window count until it returns to the baseline.
    AwaitClose { org_len: usize },
    /// Switching back to the original window.
    ToOriginal,
    /// The workflow is over.
    Finished { outcome: Outcome },
}

/// The state machine for one item: the current phase and the retry policy.
#[derive(Clone, Copy, PartialEq, Eq, Structural, Debug)]
pub struct ItemFlow {
    pub policy: RetryPolicy,
    pub phase: Phase,
}

/// The terminal phase and command for an outcome.
pub open spec fn spec_finish(o: Outcome) -> (Phase, Command) {
    (Phase::Finished { outcome: o }, Command::Finish(o))
}

/// What exhaustion of a lookup's retry budget leads to under the policy.
pub open spec fn spec_exhaust(policy: RetryPolicy) -> (Phase, Command) {
    match policy.on_exhaustion {
        Exhaustion::Fail => spec_finish(Outcome::Aborted(FatalError::LookupExhausted)),
        Exhaustion::Escalate => spec_finish(Outcome::GaveUp),
    }
}

/// The transition relation: from the current state and the driver's event to
/// the next phase and the next command.
pub open spec fn spec_step(flow: ItemFlow, ev: Event) -> (Phase, Command) {
    let policy = flow.policy;
    match (flow.phase, ev) {
        (Phase::Begin, Event::Start) => (Phase::AwaitNavigate, Command::Navigate),
        (Phase::AwaitNavigate, Event::NavigateOk) => (
            Phase::FindSell { attempts: 0 },
            Command::Query(Target::SellIndicator),
        ),
        (Phase::AwaitNavigate, Event::NavigateFailed) => spec_finish(
            Outcome::Aborted(FatalError::NavigationFailed),
        ),
        (Phase::FindSell { attempts }, Event::QueryHit(h)) => (
            Phase::AwaitClass { button: h },
            Command::ReadClass(h),
        ),
        (Phase::FindSell { attempts }, Event::QueryMiss) => if attempts + 1
            < policy.max_attempts {
            (
                Phase::FindSell { attempts: (attempts + 1) as u64 },
                Command::Query(Target::SellIndicator),
            )
        } else {
            spec_exhaust(policy)
        },
        (Phase::AwaitClass { button }, Event::Classified(d)) => match d {
            Disposition::AlreadyListed => spec_finish(Outcome::AlreadyListed),
            Disposition::NeedsListing => (Phase::AwaitSellClick, Command::Click(button)),
            Disposition::Unrecognized => spec_finish(Outcome::Unrecognized),
        },
        (Phase::AwaitClass { button }, Event::ClassReadFailed) => spec_finish(
            Outcome::Aborted(FatalError::InteractionFailed),
        ),
        (Phase::AwaitSellClick, Event::ClickOk) => (
            Phase::FindPrice { attempts: 0 },
            Command::Query(Target::PriceInput),
        ),
        (Phase::AwaitSellClick, Event::ClickFailed) => spec_finish(
            Outcome::Aborted(FatalError::InteractionFailed),
        ),
        (Phase::FindPrice { attempts }, Event::QueryHit(h)) => (
            Phase::AwaitType,
            Command::TypePrice(h),
        ),
        (Phase::FindPrice { attempts }, Event::QueryMiss) => if attempts + 1
            < policy.max_attempts {
            (
                Phase::FindPrice { attempts: (attempts + 1) as u64 },
                Command::Query(Target::PriceInput),
            )
        } else {
            spec_exhaust(policy)
        },
        (Phase::AwaitType, Event::TypeOk) => (
            Phase::FindSubmit { attempts: 0 },
            Command::Query(Target::SubmitButton),
        ),
        (Phase::AwaitType, Event::TypeFailed) => spec_finish(
            Outcome::Aborted(FatalError::InteractionFailed),
        ),
        (Phase::FindSubmit { attempts }, Event::QueryHit(h)) => (
            Phase::Baseline { submit: h },
            Command::CountWindows,
        ),
        (Phase::FindSubmit { attempts }, Event::QueryMiss) => if attempts + 1
            < policy.max_attempts {
            (
                Phase::FindSubmit { attempts: (attempts + 1) as u64 },
                Command::Query(Target::SubmitButton),
            )
        } else {
            spec_exhaust(policy)
        },
        (Phase::Baseline { submit }, Event::WindowCount(c)) => (
            Phase::AwaitSubmitClick { org_len: c },
            Command::Click(submit),
        ),
        (Phase::Baseline { submit }, Event::WindowCountFailed) => (
            Phase::Baseline { submit },
            Command::CountWindows,
        ),
        (Phase::AwaitSubmitClick { org_len }, Event::ClickOk) => (
            Phase::AwaitPopup { org_len },
            Command::CountWindows,
        ),
        (Phase::AwaitSubmitClick { org_len }, Event::ClickFailed) => spec_finish(
            Outcome::Aborted(FatalError::InteractionFailed),
        ),
        (Phase::AwaitPopup { org_len }, Event::WindowCount(c)) => if c != org_len {
            (Phase::ToPopup { org_len }, Command::SwitchWindow(WindowChoice::Newest))
        } else {
            (Phase::AwaitPopup { org_len }, Command::CountWindows)
        },
        (Phase::AwaitPopup { org_len }, Event::WindowCountFailed) => (
            Phase::AwaitPopup { org_len },
            Command::CountWindows,
        ),
        (Phase::ToPopup { org_len }, Event::SwitchOk) => (
            Phase::FindScroll { org_len, attempts: 0 },
            Command::Query(Target::ScrollControl),
        ),
        (Phase::ToPopup { org_len }, Event::SwitchFailed) => spec_finish(
            Outcome::Aborted(FatalError::InteractionFailed),
        ),
        (Phase::FindScroll { org_len, attempts }, Event::QueryHit(h)) => (
            Phase::AwaitScrollClick { org_len },
            Command::Click(h),
        ),
        (Phase::FindScroll { org_len, attempts }, Event::QueryMiss) => if attempts + 1
            < policy.max_attempts {
            (
                Phase::FindScroll { org_len, attempts: (attempts + 1) as u64 },
                Command::Query(Target::ScrollControl),
            )
        } else {
            spec_exhaust(policy)
        },
        (Phase::AwaitScrollClick { org_len }, Event::ClickOk) => (
            Phase::FindSign { org_len, attempts: 0 },
            Command::Query(Target::SignButton),
        ),
        (Phase::AwaitScrollClick { org_len }, Event::ClickFailed) => spec_finish(
            Outcome::Aborted(FatalError::InteractionFailed),
        ),
        (Phase::FindSign { org_len, attempts }, Event::QueryHit(h)) => (
            Phase::AwaitSignClick { org_len },
            Command::Click(h),
        ),
        (Phase::FindSign { org_len, attempts }, Event::QueryMiss) => if attempts + 1
            < policy.max_attempts {
            (
                Phase::FindSign { org_len, attempts: (attempts + 1) as u64 },
                Command::Query(Target::SignButton),
            )
        } else {
            spec_exhaust(policy)
        },
        (Phase::AwaitSignClick { org_len }, Event::ClickOk) => (
            Phase::AwaitClose { org_len },
            Command::CountWindows,
        ),
        (Phase::AwaitSignClick { org_len }, Event::ClickFailed) => spec_finish(
            Outcome::Aborted(FatalError::InteractionFailed),
        ),
        (Phase::AwaitClose { org_len }, Event::WindowCount(c)) => if c == org_len {
            (Phase::ToOriginal, Command::SwitchWindow(WindowChoice::Original))
        } else {
            (Phase::AwaitClose { org_len }, Command::CountWindows)
        },
        (Phase::AwaitClose { org_len }, Event::WindowCountFailed) => (
            Phase::AwaitClose { org_len },
            Command::CountWindows,
        ),
        (Phase::ToOriginal, Event::SwitchOk) => spec_finish(Outcome::Listed),
        (Phase::ToOriginal, Event::SwitchFailed) => spec_finish(
            Outcome::Aborted(FatalError::InteractionFailed),
        ),
        (Phase::Finished { outcome }, _) => (Phase::Finished { outcome }, Command::Finish(outcome)),
        _ => spec_finish(Outcome::Aborted(FatalError::ProtocolViolation)),
    }
}

impl ItemFlow {
    /// Lookup attempt counters never reach the policy's budget, so one more
    /// attempt can always be counted without overflow.
    pub open spec fn wf(&self) -> bool {
        &&& self.policy.wf()
        &&& match self.phase {
            Phase::FindSell { attempts } => attempts < self.policy.max_attempts,
            Phase::FindPrice { attempts } => attempts < self.policy.max_attempts,
            Phase::FindSubmit { attempts } => attempts < self.policy.max_attempts,
            Phase::FindScroll { attempts, .. } => attempts < self.policy.max_attempts,
            Phase::FindSign { attempts, .. } => attempts < self.policy.max_attempts,
            _ => true,
        }
    }

    /// A fresh machine for one item, ready to receive `Event::Start`.
    pub fn new(policy: RetryPolicy) -> (flow: Self)
        requires
            policy.wf(),
        ensures
            flow.policy == policy,
            flow.phase == Phase::Begin,
            flow.wf(),
    {
        ItemFlow { policy, phase: Phase::Begin }
    }

    /// The outcome, once the workflow is over.
    pub fn outcome(&self) -> (r: Option<Outcome>)
        ensures
            r == (match self.phase {
                Phase::Finished { outcome } => Some(outcome),
                _ => None::<Outcome>,
            }),
    {
        match self.phase {
            Phase::Finished { outcome } => Some(outcome),
            _ => None,
        }
    }

    /// Takes the driver's event and moves the machine one step, returning
    /// the next command: exactly the transition `spec_step` describes.
    pub fn step(&mut self, ev: Event) -> (c: Command)
        requires
            old(self).wf(),
        ensures
            final(self).policy == old(self).policy,
            final(self).wf(),
            (final(self).phase, c) == spec_step(*old(self), ev),
    {
        let max = self.policy.max_attempts;
        match (self.phase, ev) {
            (Phase::Begin, Event::Start) => {
                self.phase = Phase::AwaitNavigate;
                Command::Navigate
            },
            (Phase::AwaitNavigate, Event::NavigateOk) => {
                self.phase = Phase::FindSell { attempts: 0 };
                Command::Query(Target::SellIndicator)
            },
            (Phase::AwaitNavigate, Event::NavigateFailed) => self.finish(
                Outcome::Aborted(FatalError::NavigationFailed),
            ),
            (Phase::FindSell { .. }, Event::QueryHit(h)) => {
                self.phase = Phase::AwaitClass { button: h };
                Command::ReadClass(h)
            },
            (Phase::FindSell { attempts }, Event::QueryMiss) => {
                if attempts + 1 < max {
                    self.phase = Phase::FindSell { attempts: attempts + 1 };
                    Command::Query(Target::SellIndicator)
                } else {
                    self.exhaust()
                }
            },
            (Phase::AwaitClass { button }, Event::Classified(d)) => match d {
                Disposition::AlreadyListed => self.finish(Outcome::AlreadyListed),
                Disposition::NeedsListing => {
                    self.phase = Phase::AwaitSellClick;
                    Command::Click(button)
                },
                Disposition::Unrecognized => self.finish(Outcome::Unrecognized),
            },
            (Phase::AwaitClass { .. }, Event::ClassReadFailed) => self.finish(
                Outcome::Aborted(FatalError::InteractionFailed),
            ),
            (Phase::AwaitSellClick, Event::ClickOk) => {
                self.phase = Phase::FindPrice { attempts: 0 };
                Command::Query(Target::PriceInput)
            },
            (Phase::AwaitSellClick, Event::ClickFailed) => self.finish(
                Outcome::Aborted(FatalError::InteractionFailed),
            ),
            (Phase::FindPrice { .. }, Event::QueryHit(h)) => {
                self.phase = Phase::AwaitType;
                Command::TypePrice(h)
            },
            (Phase::FindPrice { attempts }, Event::QueryMiss) => {
                if attempts + 1 < max {
                    self.phase = Phase::FindPrice { attempts: attempts + 1 };
                    Command::Query(Target::PriceInput)
                } else {
                    self.exhaust()
                }
            },
            (Phase::AwaitType, Event::TypeOk) => {
                self.phase = Phase::FindSubmit { attempts: 0 };
                Command::Query(Target::SubmitButton)
            },
            (Phase::AwaitType, Event::TypeFailed) => self.finish(
                Outcome::Aborted(FatalError::InteractionFailed),
            ),
            (Phase::FindSubmit { .. }, Event::QueryHit(h)) => {
                self.phase = Phase::Baseline { submit: h };
                Command::CountWindows
            },
            (Phase::FindSubmit { attempts }, Event::QueryMiss) => {
                if attempts + 1 < max {
                    self.phase = Phase::FindSubmit { attempts: attempts + 1 };
                    Command::Query(Target::SubmitButton)
                } else {
                    self.exhaust()
                }
            },
            (Phase::Baseline { submit }, Event::WindowCount(c)) => {
                self.phase = Phase::AwaitSubmitClick { org_len: c };
                Command::Click(submit)
            },
            (Phase::Baseline { .. }, Event::WindowCountFailed) => Command::CountWindows,
            (Phase::AwaitSubmitClick { org_len }, Event::ClickOk) => {
                self.phase = Phase::AwaitPopup { org_len };
                Command::CountWindows
            },
            (Phase::AwaitSubmitClick { .. }, Event::ClickFailed) => self.finish(
                Outcome::Aborted(FatalError::InteractionFailed),
            ),
            (Phase::AwaitPopup { org_len }, Event::WindowCount(c)) => {
                if c != org_len {
                    self.phase = Phase::ToPopup { org_len };
                    Command::SwitchWindow(WindowChoice::Newest)
                } else {
                    Command::CountWindows
                }
            },
            (Phase::AwaitPopup { .. }, Event::WindowCountFailed) => Command::CountWindows,
            (Phase::ToPopup { org_len }, Event::SwitchOk) => {
                self.phase = Phase::FindScroll { org_len, attempts: 0 };
                Command::Query(Target::ScrollControl)
            },
            (Phase::ToPopup { .. }, Event::SwitchFailed) => self.finish(
                Outcome::Aborted(FatalError::InteractionFailed),
            ),
            (Phase::FindScroll { org_len, .. }, Event::QueryHit(h)) => {
                self.phase = Phase::AwaitScrollClick { org_len };
                Command::Click(h)
            },
            (Phase::FindScroll { org_len, attempts }, Event::QueryMiss) => {
                if attempts + 1 < max {
                    self.phase = Phase::FindScroll { org_len, attempts: attempts + 1 };
                    Command::Query(Target::ScrollControl)
                } else {
                    self.exhaust()
                }
            },
            (Phase::AwaitScrollClick { org_len }, Event::ClickOk) => {
                self.phase = Phase::FindSign { org_len, attempts: 0 };
                Command::Query(Target::SignButton)
            },
            (Phase::AwaitScrollClick { .. }, Event::ClickFailed) => self.finish(
                Outcome::Aborted(FatalError::InteractionFailed),
            ),
            (Phase::FindSign { org_len, .. }, Event::QueryHit(h)) => {
                self.phase = Phase::AwaitSignClick { org_len };
                Command::Click(h)
            },
            (Phase::FindSign { org_len, attempts }, Event::QueryMiss) => {
                if attempts + 1 < max {
                    self.phase = Phase::FindSign { org_len, attempts: attempts + 1 };
                    Command::Query(Target::SignButton)
                } else {
                    self.exhaust()
                }
            },
            (Phase::AwaitSignClick { org_len }, Event::ClickOk) => {
                self.phase = Phase::AwaitClose { org_len };
                Command::CountWindows
            },
            (Phase::AwaitSignClick { .. }, Event::ClickFailed) => self.finish(
                Outcome::Aborted(FatalError::InteractionFailed),
            ),
            (Phase::AwaitClose { org_len }, Event::WindowCount(c)) => {
                if c == org_len {
                    self.phase = Phase::ToOriginal;
                    Command::SwitchWindow(WindowChoice::Original)
                } else {
                    Command::CountWindows
                }
            },
            (Phase::AwaitClose { .. }, Event::WindowCountFailed) => Command::CountWindows,
            (Phase::ToOriginal, Event::SwitchOk) => self.finish(Outcome::Listed),
            (Phase::ToOriginal, Event::SwitchFailed) => self.finish(
                Outcome::Aborted(FatalError::InteractionFailed),
            ),
            (Phase::Finished { outcome }, _) => Command::Finish(outcome),
            _ => self.finish(Outcome::Aborted(FatalError::ProtocolViolation)),
        }
    }

    /// Ends the workflow with `o`.
    fn finish(&mut self, o: Outcome) -> (c: Command)
        ensures
            final(self).policy == old(self).policy,
            (final(self).phase, c) == spec_finish(o),
    {
        self.phase = Phase::Finished { outcome: o };
        Command::Finish(o)
    }

    /// Ends or continues the run as the policy directs when a lookup's
    /// retry budget is spent.
    fn exhaust(&mut self) -> (c: Command)
        ensures
            final(self).policy == old(self).policy,
            (final(self).phase, c) == spec_exhaust(old(self).policy),
    {
        match self.policy.on_exhaustion {
            Exhaustion::Fail => self.finish(Outcome::Aborted(FatalError::LookupExhausted)),
            Exhaustion::Escalate => self.finish(Outcome::GaveUp),
        }
    }
}

/// Law: while awaiting the signature popup, the machine switches to the
/// newest window exactly on the first poll whose count differs from the
/// baseline, and keeps polling otherwise.
pub proof fn lemma_popup_detection(flow: ItemFlow, org: usize, c: usize)
    requires
        flow.phase == (Phase::AwaitPopup { org_len: org }),
    ensures
        c != org ==> spec_step(flow, Event::WindowCount(c)) == (
            Phase::ToPopup { org_len: org },
            Command::SwitchWindow(WindowChoice::Newest),
        ),
        c == org ==> spec_step(flow, Event::WindowCount(c)) == (
            Phase::AwaitPopup { org_len: org },
            Command::CountWindows,
        ),
{
}

/// Law: while awaiting the popup's close, the machine switches back to the
/// original window exactly on the first poll whose count has returned to the
/// baseline, and keeps polling otherwise.
pub proof fn lemma_close_detection(flow: ItemFlow, org: usize, c: usize)
    requires
        flow.phase == (Phase::AwaitClose { org_len: org }),
    ensures
        c == org ==> spec_step(flow, Event::WindowCount(c)) == (
            Phase::ToOriginal,
            Command::SwitchWindow(WindowChoice::Original),
        ),
        c != org ==> spec_step(flow, Event::WindowCount(c)) == (
            Phase::AwaitClose { org_len: org },
            Command::CountWindows,
        ),
{
}

/// The page markers the sell indicator's class attribute is compared to.
pub struct Markers {
    /// The exact class of the already-listed indicator.
    pub already_listed: Vec<u8>,
    /// The exact class of the not-yet-listed action link.
    pub list_action: Vec<u8>,
}

/// Byte-for-byte equality of two byte vectors.
pub fn bytes_eq(a: &Vec<u8>, b: &Vec<u8>) -> (r: bool)
    ensures
        r == (a@ == b@),
{
    if a.len() != b.len() {
        return false;
    }
    let n = a.len();
    for i in 0..n
        invariant
            n == a@.len() == b@.len(),
            forall|k: int| 0 <= k < i ==> a@[k] == b@[k],
    {
        if a[i] != b[i] {
            return false;
        }
    }
    assert(a@ =~= b@);
    true
}

/// What a class attribute means, compared against the two markers: the
/// already-listed marker first, then the list-action marker, anything else
/// (or no class at all) unrecognized.
pub open spec fn spec_classify(attr: Option<Seq<u8>>, already: Seq<u8>, action: Seq<u8>) -> Disposition {
    match attr {
        None => Disposition::Unrecognized,
        Some(c) => if c == already {
            Disposition::AlreadyListed
        } else if c == action {
            Disposition::NeedsListing
        } else {
            Disposition::Unrecognized
        },
    }
}

/// The view of an optional class attribute.
pub open spec fn opt_bytes_view(attr: Option<&Vec<u8>>) -> Option<Seq<u8>> {
    match attr {
        None => None::<Seq<u8>>,
        Some(v) => Some(v@),
    }
}

/// Classifies the sell indicator's class attribute against the markers.
pub fn classify(attr: Option<&Vec<u8>>, markers: &Markers) -> (d: Disposition)
    ensures
        d == spec_classify(opt_bytes_view(attr), markers.already_listed@, markers.list_action@),
{
    match attr {
        None => Disposition::Unrecognized,
        Some(c) => {
            if bytes_eq(c, &markers.already_listed) {
                Disposition::AlreadyListed
            } else if bytes_eq(c, &markers.list_action) {
                Disposition::NeedsListing
            } else {
                Disposition::Unrecognized
            }
        },
    }
}

} // verus!
