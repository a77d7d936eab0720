//! The sell-run orchestrator: walks the configured id range in ascending
//! order, skips ids the progress record already holds, hands each remaining
//! id to the listing state machine, records successful items, and asks the
//! driver to persist the snapshot after every processed item.

use vstd::prelude::*;

use crate::digits::{is_digit, push_all, render_u64, spec_digits};
use crate::machine::{FatalError, Outcome, RetryPolicy};
use crate::progress::ProgressRecord;
use crate::snapshot::{decode, dedup_first, encode, spec_parse_snapshot, spec_snapshot};

verus! {

/// Every byte is a decimal digit.
pub open spec fn all_digits(s: Seq<u8>) -> bool {
    forall|i: int| 0 <= i < s.len() ==> is_digit(#[trigger] s[i])
}

/// Some byte is a digit other than zero.
pub open spec fn has_nonzero_digit(s: Seq<u8>) -> bool {
    exists|i: int| 0 <= i < s.len() && is_digit(#[trigger] s[i]) && s[i] != 48
}

/// `s` is digits, a dot at `k`, then digits, and is not all zeroes.
pub open spec fn dotted_price_at(s: Seq<u8>, k: int) -> bool {
    &&& 1 <= k
    &&& k + 2 <= s.len()
    &&& s[k] == 46
    &&& all_digits(s.take(k))
    &&& all_digits(s.skip(k + 1))
    &&& has_nonzero_digit(s)
}

/// A positive decimal price: one or more digits, optionally followed by a
/// dot and one or more digits, with at least one digit other than zero.
pub open spec fn valid_price(s: Seq<u8>) -> bool {
    ||| (s.len() > 0 && all_digits(s) && has_nonzero_digit(s))
    ||| (exists|k: int| #[trigger] dotted_price_at(s, k))
}

/// A byte that is neither a digit nor a dot rules every reading out.
proof fn lemma_bad_byte(s: Seq<u8>, q: int)
    requires
        0 <= q < s.len(),
        !is_digit(s[q]),
        s[q] != 46,
    ensures
        !valid_price(s),
{
    if exists|k: int| #[trigger] dotted_price_at(s, k) {
        let k = choose|k: int| #[trigger] dotted_price_at(s, k);
        if q < k {
            assert(s.take(k)[q] == s[q]);
            assert(is_digit(s.take(k)[q]));
        } else if q > k {
            assert(s.skip(k + 1)[q - k - 1] == s[q]);
            assert(is_digit(s.skip(k + 1)[q - k - 1]));
        }
    }
}

/// Two dots rule every reading out.
proof fn lemma_two_dots(s: Seq<u8>, q1: int, q2: int)
    requires
        0 <= q1 < q2 < s.len(),
        s[q1] == 46,
        s[q2] == 46,
    ensures
        !valid_price(s),
{
    if exists|k: int| #[trigger] dotted_price_at(s, k) {
        let k = choose|k: int| #[trigger] dotted_price_at(s, k);
        if q1 < k {
            assert(s.take(k)[q1] == s[q1]);
            assert(is_digit(s.take(k)[q1]));
        } else {
            assert(q2 > k);
            assert(s.skip(k + 1)[q2 - k - 1] == s[q2]);
            assert(is_digit(s.skip(k + 1)[q2 - k - 1]));
        }
    }
}

/// A dot at the very start or the very end rules every reading out.
proof fn lemma_dot_misplaced(s: Seq<u8>, q: int)
    requires
        0 <= q < s.len(),
        s[q] == 46,
        q == 0 || q + 1 == s.len(),
    ensures
        !valid_price(s),
{
    if exists|k: int| #[trigger] dotted_price_at(s, k) {
        let k = choose|k: int| #[trigger] dotted_price_at(s, k);
        if q < k {
            assert(s.take(k)[q] == s[q]);
            assert(is_digit(s.take(k)[q]));
        } else if q > k {
            assert(s.skip(k + 1)[q - k - 1] == s[q]);
            assert(is_digit(s.skip(k + 1)[q - k - 1]));
        }
    }
}

/// Checks the price grammar: returns exactly whether `text` is a valid
/// positive decimal price.
fn check_price(text: &Vec<u8>) -> (ok: bool)
    ensures
        ok == valid_price(text@),
{
    let ghost s = text@;
    let n = text.len();
    if n == 0 {
        assert(!valid_price(s)) by {
            if exists|k: int| #[trigger] dotted_price_at(s, k) {
                let k = choose|k: int| #[trigger] dotted_price_at(s, k);
            }
        }
        return false;
    }
    let mut dot: usize = 0;
    let mut has_dot = false;
    let mut nonzero = false;
    let mut i: usize = 0;
    while i < n
        invariant
            s == text@,
            n == s.len(),
            0 <= i <= n,
            !has_dot ==> forall|p: int| 0 <= p < i ==> is_digit(#[trigger] s[p]),
            has_dot ==> 1 <= dot < i && dot + 2 <= n && s[dot as int] == 46 && (forall|p: int|
                0 <= p < i && p != dot ==> is_digit(#[trigger] s[p])),
            nonzero ==> has_nonzero_digit(s),
            !nonzero ==> forall|p: int| 0 <= p < i ==> (is_digit(#[trigger] s[p]) ==> s[p] == 48),
        decreases n - i,
    {
        let b = text[i];
        if 48 <= b && b <= 57 {
            if b != 48 {
                proof {
                    assert(is_digit(s[i as int]) && s[i as int] != 48);
                }
                nonzero = true;
            }
        } else if b == 46 {
            if has_dot {
                proof {
                    lemma_two_dots(s, dot as int, i as int);
                }
                return false;
            }
            if i == 0 || i + 1 == n {
                proof {
                    lemma_dot_misplaced(s, i as int);
                }
                return false;
            }
            dot = i;
            has_dot = true;
        } else {
            proof {
                lemma_bad_byte(s, i as int);
            }
            return false;
        }
        i = i + 1;
    }
    if !nonzero {
        assert(!valid_price(s)) by {
            if has_nonzero_digit(s) {
                let w = choose|w: int| 0 <= w < s.len() && is_digit(#[trigger] s[w]) && s[w] != 48;
            }
        }
        return false;
    }
    proof {
        if has_dot {
            assert(all_digits(s.take(dot as int))) by {
                assert forall|p: int| 0 <= p < dot implies is_digit(
                    #[trigger] s.take(dot as int)[p],
                ) by {
                    assert(s.take(dot as int)[p] == s[p]);
                }
            }
            assert(all_digits(s.skip(dot + 1))) by {
                assert forall|p: int| 0 <= p < s.len() - dot - 1 implies is_digit(
                    #[trigger] s.skip(dot + 1)[p],
                ) by {
                    assert(s.skip(dot + 1)[p] == s[p + dot + 1]);
                }
            }
            assert(dotted_price_at(s, dot as int));
        }
    }
    true
}

/// Malformed operator input.
#[derive(Clone, Copy, PartialEq, Eq, Structural, Debug)]
pub enum ConfigError {
    InvalidPrice,
}

/// The run's price, fixed for the whole run, kept as its decimal text: the
/// text is typed into the price form as it stands.
pub struct PriceValue {
    text: Vec<u8>,
}

impl View for PriceValue {
    type V = Seq<u8>;

    closed spec fn view(&self) -> Seq<u8> {
        self.text@
    }
}

impl PriceValue {
    /// Accepts the text exactly when it is a valid positive decimal price.
    pub fn new(text: Vec<u8>) -> (r: Result<Self, ConfigError>)
        ensures
            r matches Ok(p) ==> p@ == text@ && valid_price(text@),
            r is Err <==> !valid_price(text@),
            r matches Err(e) ==> e == ConfigError::InvalidPrice,
    {
        if check_price(&text) {
            Ok(PriceValue { text })
        } else {
            Err(ConfigError::InvalidPrice)
        }
    }

    /// The price's decimal text.
    pub fn text(&self) -> (t: &Vec<u8>)
        ensures
            t@ == self@,
    {
        &self.text
    }
}

/// The operator-supplied configuration for one run.
pub struct SellConfig {
    /// The collection's base address; an id's decimal digits are appended to
    /// it to form the listing target.
    pub address: Vec<u8>,
    /// First id of the range, inclusive.
    pub start: u64,
    /// Last id of the range, inclusive.
    pub end: u64,
    pub price: PriceValue,
    pub policy: RetryPolicy,
}

impl SellConfig {
    pub open spec fn wf(&self) -> bool {
        self.policy.wf()
    }
}

/// Whether the run is still going, finished its range, or died.
#[derive(Clone, Copy, PartialEq, Eq, Structural, Debug)]
pub enum RunStatus {
    Running,
    /// The range is exhausted: the run terminated successfully.
    Finished,
    Aborted(FatalError),
}

/// How one item's turn ended.
#[derive(Clone, Copy, PartialEq, Eq, Structural, Debug)]
pub enum ItemResult {
    /// The id was already recorded; the state machine was never invoked.
    Skipped,
    /// The state machine ran to this outcome.
    Done(Outcome),
}

/// What the driver owes after an item's turn.
#[derive(Clone, Copy, PartialEq, Eq, Structural, Debug)]
pub enum AfterItem {
    /// Nothing to do; go on with the next id.
    Continue,
    /// Write the snapshot, then report the write's result.
    PersistNeeded,
    /// The run is over; stop.
    RunAborted,
}

/// Does this result record the item as processed?
pub open spec fn spec_records(res: ItemResult) -> bool {
    res == ItemResult::Done(Outcome::Listed) || res == ItemResult::Done(Outcome::AlreadyListed)
}

/// The fatal error this result carries, if any.
pub open spec fn spec_abort_of(res: ItemResult) -> Option<FatalError> {
    match res {
        ItemResult::Done(Outcome::Aborted(e)) => Some(e),
        _ => None::<FatalError>,
    }
}

/// Skip the item, or run the state machine for it.
#[derive(Clone, Copy, PartialEq, Eq, Structural, Debug)]
pub enum ItemPlan {
    Skip,
    Process,
}

/// One run over the configured range.
pub struct SellRun {
    config: SellConfig,
    progress: ProgressRecord,
    next_id: u64,
    status: RunStatus,
}

impl SellRun {
    /// The recorded ids, oldest first.
    pub closed spec fn progress_view(&self) -> Seq<u64> {
        self.progress@
    }

    pub closed spec fn spec_status(&self) -> RunStatus {
        self.status
    }

    /// The id whose turn is next, while the run is going.
    pub closed spec fn spec_next(&self) -> u64 {
        self.next_id
    }

    pub closed spec fn spec_start(&self) -> u64 {
        self.config.start
    }

    pub closed spec fn spec_end(&self) -> u64 {
        self.config.end
    }

    pub closed spec fn address_view(&self) -> Seq<u8> {
        self.config.address@
    }

    pub closed spec fn price_view(&self) -> Seq<u8> {
        self.config.price@
    }

    pub closed spec fn spec_policy(&self) -> RetryPolicy {
        self.config.policy
    }

    pub closed spec fn wf(&self) -> bool {
        &&& self.config.wf()
        &&& self.progress.wf()
        &&& (self.status is Running ==> self.config.start <= self.next_id <= self.config.end)
    }

    /// A run over `config`'s range, resuming from `progress`. An empty range
    /// is finished before it starts.
    pub fn new(config: SellConfig, progress: ProgressRecord) -> (r: Self)
        requires
            config.wf(),
            progress.wf(),
        ensures
            r.wf(),
            r.progress_view() == progress@,
            r.spec_start() == config.start,
            r.spec_end() == config.end,
            r.address_view() == config.address@,
            r.price_view() == config.price@,
            r.spec_policy() == config.policy,
            r.spec_status() == (if config.start <= config.end {
                RunStatus::Running
            } else {
                RunStatus::Finished
            }),
            r.spec_next() == config.start,
    {
        let status = if config.start <= config.end {
            RunStatus::Running
        } else {
            RunStatus::Finished
        };
        let next_id = config.start;
        SellRun { config, progress, next_id, status }
    }

    pub fn status(&self) -> (s: RunStatus)
        ensures
            s == self.spec_status(),
    {
        self.status
    }

    /// The id whose turn is next: `Some` exactly while the run is going.
    pub fn current(&self) -> (r: Option<u64>)
        ensures
            r == (if self.spec_status() is Running {
                Some(self.spec_next())
            } else {
                None::<u64>
            }),
    {
        match self.status {
            RunStatus::Running => Some(self.next_id),
            _ => None,
        }
    }

    /// The retry policy every lookup of this run uses.
    pub fn policy(&self) -> (p: RetryPolicy)
        ensures
            p == self.spec_policy(),
    {
        self.config.policy
    }

    /// The price text the state machine's type command stands for.
    pub fn price_text(&self) -> (t: &Vec<u8>)
        ensures
            t@ == self.price_view(),
    {
        self.config.price.text()
    }

    /// The listing target for the current id: the base address with the id's
    /// decimal digits appended.
    pub fn current_target(&self) -> (url: Vec<u8>)
        requires
            self.spec_status() is Running,
        ensures
            url@ == self.address_view() + spec_digits(self.spec_next() as nat),
    {
        let mut url: Vec<u8> = Vec::new();
        push_all(&mut url, &self.config.address);
        let mut d = render_u64(self.next_id);
        url.append(&mut d);
        assert(url@ =~= self.address_view() + spec_digits(self.spec_next() as nat));
        url
    }

    /// Decides the current id's turn: skip exactly when the id is already
    /// recorded, so re-running a range never re-submits a recorded item.
    /// Deciding changes nothing.
    pub fn begin_item(&self) -> (p: ItemPlan)
        requires
            self.spec_status() is Running,
        ensures
            p == (if self.progress_view().contains(self.spec_next()) {
                ItemPlan::Skip
            } else {
                ItemPlan::Process
            }),
    {
        if self.progress.contains(self.next_id) {
            ItemPlan::Skip
        } else {
            ItemPlan::Process
        }
    }

    /// Closes the current id's turn: records the id when its outcome was a
    /// listing (fresh or found already listed), advances the range, and says
    /// whether a snapshot write is owed. The record only ever grows, and a
    /// skipped item changes it not at all.
    pub fn finish_item(&mut self, res: ItemResult) -> (d: AfterItem)
        requires
            old(self).wf(),
            old(self).spec_status() is Running,
        ensures
            final(self).wf(),
            final(self).spec_start() == old(self).spec_start(),
            final(self).spec_end() == old(self).spec_end(),
            final(self).address_view() == old(self).address_view(),
            final(self).price_view() == old(self).price_view(),
            final(self).spec_policy() == old(self).spec_policy(),
            final(self).progress_view() == (if spec_records(res) && !old(self).progress_view()
                .contains(old(self).spec_next()) {
                old(self).progress_view().push(old(self).spec_next())
            } else {
                old(self).progress_view()
            }),
            old(self).progress_view().is_prefix_of(final(self).progress_view()),
            final(self).progress_view().len() >= old(self).progress_view().len(),
            final(self).spec_status() == (match spec_abort_of(res) {
                Some(e) => RunStatus::Aborted(e),
                None => if old(self).spec_next() == old(self).spec_end() {
                    RunStatus::Finished
                } else {
                    RunStatus::Running
                },
            }),
            spec_abort_of(res) is None && old(self).spec_next() < old(self).spec_end()
                ==> final(self).spec_next() == old(self).spec_next() + 1,
            d == (if spec_abort_of(res) is Some {
                AfterItem::RunAborted
            } else if res == ItemResult::Skipped {
                AfterItem::Continue
            } else {
                AfterItem::PersistNeeded
            }),
    {
        match res {
            ItemResult::Skipped => {
                self.advance();
                AfterItem::Continue
            },
            ItemResult::Done(outcome) => match outcome {
                Outcome::Aborted(e) => {
                    self.status = RunStatus::Aborted(e);
                    AfterItem::RunAborted
                },
                Outcome::Listed | Outcome::AlreadyListed => {
                    self.progress.record(self.next_id);
                    self.advance();
                    AfterItem::PersistNeeded
                },
                Outcome::Unrecognized | Outcome::GaveUp => {
                    self.advance();
                    AfterItem::PersistNeeded
                },
            },
        }
    }

    /// Moves to the next id, or ends the run when the range is exhausted.
    fn advance(&mut self)
        requires
            old(self).spec_status() is Running,
            old(self).spec_next() <= old(self).spec_end(),
        ensures
            final(self).config == old(self).config,
            final(self).progress == old(self).progress,
            final(self).spec_status() == (if old(self).spec_next() == old(self).spec_end() {
                RunStatus::Finished
            } else {
                RunStatus::Running
            }),
            old(self).spec_next() < old(self).spec_end() ==> final(self).spec_next() == old(
                self,
            ).spec_next() + 1,
    {
        if self.next_id == self.config.end {
            self.status = RunStatus::Finished;
        } else {
            self.next_id = self.next_id + 1;
        }
    }

    /// Is `id` already recorded as processed?
    pub fn recorded(&self, id: u64) -> (r: bool)
        ensures
            r == self.progress_view().contains(id),
    {
        self.progress.contains(id)
    }

    /// The snapshot document for the current record, for the driver to write.
    pub fn snapshot_bytes(&self) -> (b: Vec<u8>)
        ensures
            b@ == spec_snapshot(self.progress_view()),
    {
        encode(&self.progress)
    }

    /// Takes the result of the snapshot write. A failed write is fatal: the
    /// run stops at once, though the in-memory record keeps everything it
    /// held, including the item whose persistence failed.
    pub fn persist_result(&mut self, ok: bool)
        requires
            old(self).wf(),
        ensures
            final(self).wf(),
            final(self).progress_view() == old(self).progress_view(),
            final(self).spec_next() == old(self).spec_next(),
            final(self).spec_start() == old(self).spec_start(),
            final(self).spec_end() == old(self).spec_end(),
            final(self).address_view() == old(self).address_view(),
            final(self).price_view() == old(self).price_view(),
            final(self).spec_policy() == old(self).spec_policy(),
            final(self).spec_status() == (if ok {
                old(self).spec_status()
            } else {
                RunStatus::Aborted(FatalError::PersistenceFailed)
            }),
    {
        if !ok {
            self.status = RunStatus::Aborted(FatalError::PersistenceFailed);
        }
    }
}

/// Loads the progress record for a run's start: empty when there is no prior
/// snapshot or the operator declines to reuse it; otherwise the snapshot is
/// decoded, and a snapshot that cannot be decoded is fatal.
pub fn load_progress(snapshot: Option<&Vec<u8>>, reuse: bool) -> (r: Result<
    ProgressRecord,
    FatalError,
>)
    ensures
        r matches Ok(rec) ==> rec.wf(),
        (snapshot is None || !reuse) ==> (r matches Ok(rec) && rec@ == Seq::<u64>::empty()),
        snapshot matches Some(b) ==> reuse ==> {
            &&& (r is Ok <==> spec_parse_snapshot(b@) is Some)
            &&& (r matches Ok(rec) ==> {
                let items = spec_parse_snapshot(b@)->Some_0;
                &&& rec@ == dedup_first(items)
                &&& (forall|id: u64| rec@.contains(id) <==> items.contains(id))
                &&& (items.no_duplicates() ==> rec@ == items)
            })
            &&& (r matches Err(e) ==> e == FatalError::CorruptSnapshot)
        },
{
    match snapshot {
        Some(bytes) if reuse => match decode(bytes) {
            Ok(rec) => Ok(rec),
            Err(_) => Err(FatalError::CorruptSnapshot),
        },
        _ => Ok(ProgressRecord::new()),
    }
}

} // verus!
