//! Publisher bookkeeping: the run state, the ledger of acknowledged
//! identities, and the per-message decisions of the send loop under
//! broker backpressure.
use vstd::prelude::*;
use crate::text::views;

verus! {

/// Life cycle of a publisher or subscriber.
#[derive(Clone, Copy, Debug, PartialEq, Eq, Structural)]
pub enum RunState {
    Idle,
    Running,
    Stopped,
}

/// State after `begin`: only an idle side starts.
pub open spec fn state_after_begin(s: RunState) -> RunState {
    if s == RunState::Idle {
        RunState::Running
    } else {
        s
    }
}

/// State after `end`: only a running side stops.
pub open spec fn state_after_end(s: RunState) -> RunState {
    if s == RunState::Running {
        RunState::Stopped
    } else {
        s
    }
}

/// The identities one side has recorded, in order, with its run state.
/// The count always equals the number of identities recorded.
pub struct DeliveryLedger {
    pub state: RunState,
    pub hashes: Vec<String>,
    pub count: u64,
}

impl DeliveryLedger {
    pub open spec fn wf(&self) -> bool {
        self.count == self.hashes@.len()
    }

    pub fn new() -> (r: DeliveryLedger)
        ensures
            r.wf(),
            r.state == RunState::Idle,
            r.hashes@.len() == 0,
    {
        DeliveryLedger { state: RunState::Idle, hashes: Vec::new(), count: 0 }
    }

    /// Starts the side if it is idle; true when a loop is to be started.
    pub fn begin(&mut self) -> (started: bool)
        ensures
            started == (old(self).state == RunState::Idle),
            final(self).state == state_after_begin(old(self).state),
            final(self).hashes == old(self).hashes,
            final(self).count == old(self).count,
    {
        if matches!(self.state, RunState::Idle) {
            self.state = RunState::Running;
            true
        } else {
            false
        }
    }

    /// Asks a running side to stop.
    pub fn end(&mut self)
        ensures
            final(self).state == state_after_end(old(self).state),
            final(self).hashes == old(self).hashes,
            final(self).count == old(self).count,
    {
        if matches!(self.state, RunState::Running) {
            self.state = RunState::Stopped;
        }
    }

    pub fn is_running(&self) -> (r: bool)
        ensures
            r == (self.state == RunState::Running),
    {
        matches!(self.state, RunState::Running)
    }

    /// Appends a batch of identities handed over by the loop.
    pub fn absorb(&mut self, batch: Vec<String>)
        requires
            old(self).wf(),
            old(self).count + batch@.len() <= u64::MAX,
        ensures
            final(self).wf(),
            final(self).state == old(self).state,
            views(final(self).hashes@) == views(old(self).hashes@) + views(batch@),
    {
        let mut batch = batch;
        let ghost before = self.hashes@;
        let ghost added = batch@;
        self.count = self.count + batch.len() as u64;
        self.hashes.append(&mut batch);
        assert(views(self.hashes@) =~= views(before) + views(added));
    }

    pub fn hashes(&self) -> (r: Vec<String>)
        ensures
            views(r@) == views(self.hashes@),
    {
        let mut r: Vec<String> = Vec::new();
        let mut i: usize = 0;
        while i < self.hashes.len()
            invariant
                i <= self.hashes@.len(),
                views(r@) == views(self.hashes@.take(i as int)),
            decreases self.hashes@.len() - i,
        {
            r.push(self.hashes[i].clone());
            assert(views(self.hashes@.take(i + 1)) =~= views(self.hashes@.take(i as int)).push(
                self.hashes@[i as int]@,
            ));
            assert(views(r@) =~= views(self.hashes@.take(i + 1)));
            i = i + 1;
        }
        assert(self.hashes@.take(i as int) =~= self.hashes@);
        r
    }
}

/// Backpressure and batching parameters of the send loop.
#[derive(Clone, Copy, Debug, PartialEq, Eq, Structural)]
pub struct BackoffConfig {
    /// Flush timeout for the first retry; retry `d` waits `d + 1` times this.
    pub base_timeout_ms: u64,
    /// Deepest retry; a message still refused after it is dropped.
    pub max_depth: u32,
    /// Hand the ledger a batch after this many sends.
    pub batch_size: u64,
    /// Flush timeout when the loop stops.
    pub final_flush_ms: u64,
}

pub const DEFAULT_BASE_TIMEOUT_MS: u64 = 1000;

pub const DEFAULT_MAX_DEPTH: u32 = 10;

pub const DEFAULT_BATCH_SIZE: u64 = 10_000;

pub const DEFAULT_FINAL_FLUSH_MS: u64 = 10_000;

impl BackoffConfig {
    pub open spec fn wf(&self) -> bool {
        &&& self.batch_size > 0
        &&& self.max_depth < u32::MAX
        &&& self.base_timeout_ms * (self.max_depth + 1) <= u64::MAX
    }

    pub fn new(base_timeout_ms: u64, max_depth: u32, batch_size: u64, final_flush_ms: u64) -> (r:
        Option<BackoffConfig>)
        ensures
            r is Some <==> batch_size > 0 && max_depth < u32::MAX && base_timeout_ms * (max_depth
                + 1) <= u64::MAX,
            r matches Some(c) ==> c.wf() && c.base_timeout_ms == base_timeout_ms && c.max_depth
                == max_depth && c.batch_size == batch_size && c.final_flush_ms == final_flush_ms,
    {
        if batch_size == 0 || max_depth == u32::MAX {
            return None;
        }
        match base_timeout_ms.checked_mul(max_depth as u64 + 1) {
            Some(_) => Some(BackoffConfig { base_timeout_ms, max_depth, batch_size, final_flush_ms }),
            None => None,
        }
    }

    pub fn default_config() -> (r: BackoffConfig)
        ensures
            r.wf(),
            r.base_timeout_ms == DEFAULT_BASE_TIMEOUT_MS,
            r.max_depth == DEFAULT_MAX_DEPTH,
            r.batch_size == DEFAULT_BATCH_SIZE,
            r.final_flush_ms == DEFAULT_FINAL_FLUSH_MS,
    {
        assert(DEFAULT_BASE_TIMEOUT_MS * (DEFAULT_MAX_DEPTH + 1) <= u64::MAX) by (nonlinear_arith);
        BackoffConfig {
            base_timeout_ms: DEFAULT_BASE_TIMEOUT_MS,
            max_depth: DEFAULT_MAX_DEPTH,
            batch_size: DEFAULT_BATCH_SIZE,
            final_flush_ms: DEFAULT_FINAL_FLUSH_MS,
        }
    }
}

/// What the broker said to one send.
#[derive(Clone, Copy, Debug, PartialEq, Eq, Structural)]
pub enum SendOutcome {
    /// Accepted for delivery.
    Delivered,
    /// The local send queue is full; a transient condition.
    QueueFull,
    /// Any other error; retrying would not help.
    Rejected,
}

/// What the loop does next with the current message.
#[derive(Clone, Copy, Debug, PartialEq, Eq, Structural)]
pub enum SendDecision {
    /// The message is done; go on with the next one.
    Next,
    /// Flush with this timeout in milliseconds, then send the same message again.
    RetryAfterFlush(u64),
    /// Give the message up; it counts as lost.
    Drop,
}

/// The counters of a send loop, as the decisions see them.
pub struct LoopModel {
    pub depth: nat,
    pub sent: nat,
    pub dropped: nat,
}

/// One decision of the send loop on one outcome.
pub open spec fn step_model(m: LoopModel, outcome: SendOutcome, max_depth: nat) -> LoopModel {
    match outcome {
        SendOutcome::Delivered => LoopModel { depth: 0, sent: m.sent + 1, dropped: m.dropped },
        SendOutcome::QueueFull => if m.depth <= max_depth {
            LoopModel { depth: m.depth + 1, sent: m.sent, dropped: m.dropped }
        } else {
            LoopModel { depth: 0, sent: m.sent, dropped: m.dropped + 1 }
        },
        SendOutcome::Rejected => LoopModel { depth: 0, sent: m.sent, dropped: m.dropped + 1 },
    }
}

/// The send loop's counters after a sequence of outcomes.
pub open spec fn run_model(m: LoopModel, outcomes: Seq<SendOutcome>, max_depth: nat) -> LoopModel
    decreases outcomes.len(),
{
    if outcomes.len() == 0 {
        m
    } else {
        run_model(step_model(m, outcomes[0], max_depth), outcomes.drop_first(), max_depth)
    }
}

/// `q` capacity errors followed by an acceptance.
pub open spec fn refused_then_accepted(q: nat) -> Seq<SendOutcome> {
    Seq::new(q, |i: int| SendOutcome::QueueFull).push(SendOutcome::Delivered)
}

/// A message that meets at most `max_depth + 1` capacity errors in a row
/// before the broker accepts it is sent, never dropped.
pub proof fn lemma_capacity_errors_retried(m: LoopModel, q: nat, max_depth: nat)
    requires
        m.depth + q <= max_depth + 1,
    ensures
        run_model(m, refused_then_accepted(q), max_depth) == (LoopModel {
            depth: 0,
            sent: m.sent + 1,
            dropped: m.dropped,
        }),
    decreases q,
{
    let os = refused_then_accepted(q);
    if q == 0 {
        assert(os[0] == SendOutcome::Delivered);
        assert(os.drop_first() =~= Seq::<SendOutcome>::empty());
        let after = step_model(m, SendOutcome::Delivered, max_depth);
        assert(run_model(after, Seq::<SendOutcome>::empty(), max_depth) == after);
    } else {
        assert(os[0] == SendOutcome::QueueFull);
        let next = LoopModel { depth: m.depth + 1, sent: m.sent, dropped: m.dropped };
        assert(step_model(m, SendOutcome::QueueFull, max_depth) == next);
        assert(os.drop_first() =~= refused_then_accepted((q - 1) as nat));
        lemma_capacity_errors_retried(next, (q - 1) as nat, max_depth);
    }
}

/// Number of acceptances in a sequence of outcomes.
pub open spec fn acceptances(outcomes: Seq<SendOutcome>) -> nat
    decreases outcomes.len(),
{
    if outcomes.len() == 0 {
        0
    } else {
        (if outcomes[0] == SendOutcome::Delivered {
            1nat
        } else {
            0nat
        }) + acceptances(outcomes.drop_first())
    }
}

/// The sent counter grows by exactly the number of sends the broker
/// accepted, whatever else it answered.
pub proof fn lemma_sent_counts_acceptances(m: LoopModel, outcomes: Seq<SendOutcome>, max_depth: nat)
    ensures
        run_model(m, outcomes, max_depth).sent == m.sent + acceptances(outcomes),
    decreases outcomes.len(),
{
    if outcomes.len() > 0 {
        lemma_sent_counts_acceptances(
            step_model(m, outcomes[0], max_depth),
            outcomes.drop_first(),
            max_depth,
        );
    }
}

/// The state a send loop keeps between messages.
pub struct SendLoop {
    pub config: BackoffConfig,
    /// Capacity retries spent on the current message.
    pub depth: u32,
    /// Identities acknowledged since the last hand-over to the ledger.
    pub pending: Vec<String>,
    pub sent: u64,
    pub dropped: u64,
}

impl SendLoop {
    pub open spec fn wf(&self) -> bool {
        &&& self.config.wf()
        &&& self.depth <= self.config.max_depth + 1
    }

    pub open spec fn model(&self) -> LoopModel {
        LoopModel { depth: self.depth as nat, sent: self.sent as nat, dropped: self.dropped as nat }
    }

    pub fn new(config: BackoffConfig) -> (r: SendLoop)
        requires
            config.wf(),
        ensures
            r.wf(),
            r.config == config,
            r.depth == 0,
            r.sent == 0,
            r.dropped == 0,
            r.pending@.len() == 0,
    {
        SendLoop { config, depth: 0, pending: Vec::new(), sent: 0, dropped: 0 }
    }

    /// Flush timeout before retry number `depth + 1`.
    pub fn flush_timeout_ms(&self, depth: u32) -> (r: u64)
        requires
            self.config.wf(),
            depth <= self.config.max_depth,
        ensures
            r == self.config.base_timeout_ms * (depth + 1),
    {
        assert(self.config.base_timeout_ms * (depth + 1) <= self.config.base_timeout_ms * (
        self.config.max_depth + 1)) by (nonlinear_arith)
            requires
                depth <= self.config.max_depth,
        ;
        self.config.base_timeout_ms * (depth as u64 + 1)
    }

    /// Records the outcome of sending the message whose identity is `hash`
    /// and decides what comes next. Only an accepted message enters the
    /// ledger; a full queue is retried after a flush with a growing timeout
    /// until the depth cap; any other error drops the message.
    pub fn on_send_result(&mut self, hash: String, outcome: SendOutcome) -> (d: SendDecision)
        requires
            old(self).wf(),
            old(self).sent < u64::MAX,
            old(self).dropped < u64::MAX,
        ensures
            final(self).wf(),
            final(self).config == old(self).config,
            final(self).model() == step_model(
                old(self).model(),
                outcome,
                old(self).config.max_depth as nat,
            ),
            outcome == SendOutcome::Delivered ==> d == SendDecision::Next && final(self).pending@
                == old(self).pending@.push(hash),
            outcome != SendOutcome::Delivered ==> final(self).pending@ == old(self).pending@,
            outcome == SendOutcome::QueueFull && old(self).depth <= old(self).config.max_depth ==> (
            d matches SendDecision::RetryAfterFlush(t) && t == old(self).config.base_timeout_ms * (
            old(self).depth + 1)),
            outcome == SendOutcome::QueueFull && old(self).depth > old(self).config.max_depth ==> d
                == SendDecision::Drop,
            outcome == SendOutcome::Rejected ==> d == SendDecision::Drop,
    {
        match outcome {
            SendOutcome::Delivered => {
                self.pending.push(hash);
                self.sent = self.sent + 1;
                self.depth = 0;
                SendDecision::Next
            },
            SendOutcome::QueueFull => {
                if self.depth <= self.config.max_depth {
                    let t = self.flush_timeout_ms(self.depth);
                    self.depth = self.depth + 1;
                    SendDecision::RetryAfterFlush(t)
                } else {
                    self.depth = 0;
                    self.dropped = self.dropped + 1;
                    SendDecision::Drop
                }
            },
            SendOutcome::Rejected => {
                self.depth = 0;
                self.dropped = self.dropped + 1;
                SendDecision::Drop
            },
        }
    }

    /// A batch is due after every `batch_size` acknowledged sends.
    pub fn batch_due(&self) -> (r: bool)
        requires
            self.config.wf(),
        ensures
            r == (self.sent > 0 && self.sent % self.config.batch_size == 0),
    {
        self.sent > 0 && self.sent % self.config.batch_size == 0
    }

    /// Hands the pending identities over, leaving none pending.
    pub fn take_pending(&mut self) -> (r: Vec<String>)
        ensures
            r@ == old(self).pending@,
            final(self).pending@.len() == 0,
            final(self).config == old(self).config,
            final(self).depth == old(self).depth,
            final(self).sent == old(self).sent,
            final(self).dropped == old(self).dropped,
    {
        let mut out: Vec<String> = Vec::new();
        out.append(&mut self.pending);
        assert(out@ =~= old(self).pending@);
        out
    }
}

/// Errors when a publisher or subscriber is set up.
#[derive(Clone, Copy, Debug, PartialEq, Eq, Structural)]
pub enum SetupError {
    /// No broker address was given.
    NoBroker,
    /// More broker addresses than the transport takes.
    TooManyBrokers,
    /// A broker address is not `<host>:<port>` with a port in `0..=65535`.
    MalformedAddress,
}

/// The publisher's shared side: its brokers and its ledger of acknowledged
/// identities. The send loop hands batches over to it.
pub struct KafkaSender {
    pub brokers: Vec<String>,
    pub ledger: DeliveryLedger,
}

impl KafkaSender {
    pub open spec fn wf(&self) -> bool {
        self.ledger.wf()
    }

    /// A sender for the given brokers: idle, with an empty ledger.
    pub fn new(brokers: Vec<String>) -> (r: Result<KafkaSender, SetupError>)
        ensures
            r matches Ok(s) && s.wf() && s.brokers == brokers && s.ledger.state == RunState::Idle
                && s.ledger.hashes@.len() == 0,
    {
        Ok(KafkaSender { brokers, ledger: DeliveryLedger::new() })
    }

    /// Starts sending if idle; true when the send loop is to be started.
    /// A second call while sending starts nothing.
    pub fn begin(&mut self) -> (started: bool)
        ensures
            started == (old(self).ledger.state == RunState::Idle),
            final(self).ledger.state == state_after_begin(old(self).ledger.state),
            final(self).ledger.hashes == old(self).ledger.hashes,
            final(self).ledger.count == old(self).ledger.count,
            final(self).brokers == old(self).brokers,
    {
        self.ledger.begin()
    }

    /// Asks the send loop to stop after its current message.
    pub fn end(&mut self)
        ensures
            final(self).ledger.state == state_after_end(old(self).ledger.state),
            final(self).ledger.hashes == old(self).ledger.hashes,
            final(self).ledger.count == old(self).ledger.count,
            final(self).brokers == old(self).brokers,
    {
        self.ledger.end()
    }

    pub fn is_sending(&self) -> (r: bool)
        ensures
            r == (self.ledger.state == RunState::Running),
    {
        self.ledger.is_running()
    }

    /// Records a batch of acknowledged identities.
    pub fn absorb(&mut self, batch: Vec<String>)
        requires
            old(self).wf(),
            old(self).ledger.count + batch@.len() <= u64::MAX,
        ensures
            final(self).wf(),
            final(self).ledger.state == old(self).ledger.state,
            views(final(self).ledger.hashes@) == views(old(self).ledger.hashes@) + views(batch@),
            final(self).brokers == old(self).brokers,
    {
        self.ledger.absorb(batch)
    }

    pub fn get_sent_message_hashes(&self) -> (r: Vec<String>)
        ensures
            views(r@) == views(self.ledger.hashes@),
    {
        self.ledger.hashes()
    }

    /// Number of acknowledged sends recorded so far.
    pub fn get_sent_messages(&self) -> (r: u64)
        requires
            self.wf(),
        ensures
            r == self.ledger.hashes@.len(),
    {
        self.ledger.count
    }
}

/// Starting twice starts one loop: after a `begin`, another `begin` starts
/// nothing until the side has been ended.
pub proof fn lemma_begin_idempotent(s: RunState)
    ensures
        state_after_begin(state_after_begin(s)) == state_after_begin(s),
        state_after_begin(s) != RunState::Idle,
{
}

} // verus!
