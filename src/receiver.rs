//! Subscriber bookkeeping: identities of received messages, counted and
//! handed to the ledger in batches, and the set-up of each transport.
use vstd::prelude::*;
use vstd::string::*;
use vstd::utf8::{decode_utf8, valid_utf8};
use crate::identity::{identity_of, lossy_of, received_identity, slash_topic_identity};
use crate::sender::{state_after_begin, state_after_end, DeliveryLedger, RunState, SetupError};
use crate::text::views;

verus! {

/// The state a receive loop keeps between polls.
pub struct ReceiveLoop {
    pub batch_size: u64,
    /// Identities received since the last hand-over to the ledger.
    pub pending: Vec<String>,
    pub received: u64,
}

impl ReceiveLoop {
    pub fn new(batch_size: u64) -> (r: ReceiveLoop)
        requires
            batch_size > 0,
        ensures
            r.batch_size == batch_size,
            r.pending@.len() == 0,
            r.received == 0,
    {
        ReceiveLoop { batch_size, pending: Vec::new(), received: 0 }
    }

    /// Records a message delivered with a topic and a key, as a broker
    /// with keyed records delivers it.
    pub fn on_keyed_message(&mut self, topic: &str, key: &[u8], payload: &[u8])
        requires
            old(self).received < u64::MAX,
        ensures
            final(self).received == old(self).received + 1,
            final(self).batch_size == old(self).batch_size,
            final(self).pending@.len() == old(self).pending@.len() + 1,
            final(self).pending@.drop_last() == old(self).pending@,
            final(self).pending@.last()@ == identity_of(
                topic@ + seq!['.'] + lossy_of(key@),
                payload@,
            ),
            valid_utf8(key@) ==> final(self).pending@.last()@ == identity_of(
                topic@ + seq!['.'] + decode_utf8(key@),
                payload@,
            ),
    {
        let h = received_identity(topic, key, payload);
        self.pending.push(h);
        self.received = self.received + 1;
        assert(self.pending@.drop_last() =~= old(self).pending@);
    }

    /// Records a message delivered under a slash-separated topic that
    /// carries the whole path.
    pub fn on_path_message(&mut self, topic: &str, payload: &[u8])
        requires
            old(self).received < u64::MAX,
        ensures
            final(self).received == old(self).received + 1,
            final(self).batch_size == old(self).batch_size,
            final(self).pending@.len() == old(self).pending@.len() + 1,
            final(self).pending@.drop_last() == old(self).pending@,
            final(self).pending@.last()@ == identity_of(
                topic@.map_values(|c: char| if c == '/' { '.' } else { c }),
                payload@,
            ),
    {
        let h = slash_topic_identity(topic, payload);
        self.pending.push(h);
        self.received = self.received + 1;
        assert(self.pending@.drop_last() =~= old(self).pending@);
    }

    /// A batch is due after every `batch_size` received messages.
    pub fn batch_due(&self) -> (r: bool)
        requires
            self.batch_size > 0,
        ensures
            r == (self.received % self.batch_size == 0),
    {
        self.received % self.batch_size == 0
    }

    /// Hands the pending identities over, leaving none pending.
    pub fn take_pending(&mut self) -> (r: Vec<String>)
        ensures
            r@ == old(self).pending@,
            final(self).pending@.len() == 0,
            final(self).batch_size == old(self).batch_size,
            final(self).received == old(self).received,
    {
        let mut out: Vec<String> = Vec::new();
        out.append(&mut self.pending);
        assert(out@ =~= old(self).pending@);
        out
    }
}

pub open spec fn digit_value(c: char) -> nat {
    ((c as u32) - 48) as nat
}

pub open spec fn is_digit(c: char) -> bool {
    '0' <= c <= '9'
}

/// Value of a string of decimal digits.
pub open spec fn digits_value(s: Seq<char>) -> nat
    decreases s.len(),
{
    if s.len() == 0 {
        0
    } else {
        digits_value(s.drop_last()) * 10 + digit_value(s.last())
    }
}

/// What `u16` parsing accepts: an optional `+`, then one or more decimal
/// digits whose value fits.
pub open spec fn parsed_u16(s: Seq<char>) -> Option<u16> {
    let d = if s.len() > 0 && s[0] == '+' {
        s.drop_first()
    } else {
        s
    };
    if d.len() > 0 && (forall|i: int| 0 <= i < d.len() ==> is_digit(#[trigger] d[i]))
        && digits_value(d) <= u16::MAX {
        Some(digits_value(d) as u16)
    } else {
        None
    }
}

/// Relies on std's `u16::from_str` (through `str::parse`): an optional `+`
/// followed by decimal digits whose value fits; anything else is an error.
#[verifier::external_body]
fn parse_u16(s: &str) -> (r: Option<u16>)
    ensures
        r == parsed_u16(s@),
{
    s.parse::<u16>().ok()
}

/// Position of the first `':'`, if any.
pub open spec fn first_colon(s: Seq<char>) -> Option<int> {
    if exists|i: int| 0 <= i < s.len() && s[i] == ':' {
        Some(
            choose|i: int|
                0 <= i < s.len() && s[i] == ':' && forall|j: int| 0 <= j < i ==> s[j] != ':',
        )
    } else {
        None
    }
}

proof fn lemma_first_colon(s: Seq<char>, i: int)
    requires
        0 <= i < s.len(),
        s[i] == ':',
        forall|j: int| 0 <= j < i ==> s[j] != ':',
    ensures
        first_colon(s) == Some(i),
{
    let k = choose|k: int|
        0 <= k < s.len() && s[k] == ':' && forall|j: int| 0 <= j < k ==> s[j] != ':';
    if k < i {
        assert(s[k] != ':');
    }
    if k > i {
        assert(s[i] != ':');
    }
}

/// Splits `<host>:<port>` at the first colon.
pub fn split_host_port(addr: &str) -> (r: Option<(String, u16)>)
    ensures
        first_colon(addr@) is None ==> r is None,
        first_colon(addr@) matches Some(i) ==> match parsed_u16(
            addr@.subrange(i + 1, addr@.len() as int),
        ) {
            Some(port) => r matches Some(hp) && hp.0@ == addr@.subrange(0, i) && hp.1 == port,
            None => r is None,
        },
{
    let n = addr.unicode_len();
    let mut i: usize = 0;
    while i < n
        invariant
            n == addr@.len(),
            i <= n,
            forall|j: int| 0 <= j < i ==> addr@[j] != ':',
        decreases n - i,
    {
        if addr.get_char(i) == ':' {
            proof {
                lemma_first_colon(addr@, i as int);
            }
            let host = addr.substring_char(0, i).to_owned();
            let port_text = addr.substring_char(i + 1, n);
            return match parse_u16(port_text) {
                Some(port) => Some((host, port)),
                None => None,
            };
        }
        i = i + 1;
    }
    assert(!exists|k: int| 0 <= k < addr@.len() && addr@[k] == ':');
    None
}

/// The subscriber for a keyed-record broker: its brokers, the topic it
/// subscribes to and its ledger of received identities.
pub struct KafkaReceiver {
    pub brokers: Vec<String>,
    pub topic: String,
    pub ledger: DeliveryLedger,
}

impl KafkaReceiver {
    /// A receiver for the given brokers and topic: idle, with an empty ledger.
    pub fn new(brokers: Vec<String>, topic: String) -> (r: Result<KafkaReceiver, SetupError>)
        ensures
            r matches Ok(s) && s.ledger.wf() && s.brokers == brokers && s.topic == topic
                && s.ledger.state == RunState::Idle && s.ledger.hashes@.len() == 0,
    {
        Ok(KafkaReceiver { brokers, topic, ledger: DeliveryLedger::new() })
    }

    /// Starts receiving if idle; true when the receive loop is to be started.
    pub fn begin(&mut self) -> (started: bool)
        ensures
            started == (old(self).ledger.state == RunState::Idle),
            final(self).ledger.state == state_after_begin(old(self).ledger.state),
            final(self).ledger.hashes == old(self).ledger.hashes,
            final(self).ledger.count == old(self).ledger.count,
    {
        self.ledger.begin()
    }

    pub fn end(&mut self)
        ensures
            final(self).ledger.state == state_after_end(old(self).ledger.state),
            final(self).ledger.hashes == old(self).ledger.hashes,
            final(self).ledger.count == old(self).ledger.count,
    {
        self.ledger.end()
    }

    pub fn get_received_messages_hashes(&self) -> (r: Vec<String>)
        ensures
            views(r@) == views(self.ledger.hashes@),
    {
        self.ledger.hashes()
    }

    pub fn get_received_messages(&self) -> (r: u64)
        requires
            self.ledger.wf(),
        ensures
            r == self.ledger.hashes@.len(),
    {
        self.ledger.count
    }
}

/// The subscriber for an MQTT 3 broker: one broker host and port, the topic
/// filter it subscribes to and its ledger of received identities.
pub struct MQTT3Receiver {
    pub broker: String,
    pub port: u16,
    pub topic: String,
    pub ledger: DeliveryLedger,
}

impl MQTT3Receiver {
    /// Takes exactly one broker address of the form `<host>:<port>`.
    pub fn new(brokers: Vec<String>, topic: String) -> (r: Result<MQTT3Receiver, SetupError>)
        ensures
            brokers@.len() == 0 ==> r == Err::<MQTT3Receiver, SetupError>(SetupError::NoBroker),
            brokers@.len() > 1 ==> r == Err::<MQTT3Receiver, SetupError>(
                SetupError::TooManyBrokers,
            ),
            brokers@.len() == 1 ==> match first_colon(brokers@[0]@) {
                None => r == Err::<MQTT3Receiver, SetupError>(SetupError::MalformedAddress),
                Some(i) => match parsed_u16(
                    brokers@[0]@.subrange(i + 1, brokers@[0]@.len() as int),
                ) {
                    None => r == Err::<MQTT3Receiver, SetupError>(SetupError::MalformedAddress),
                    Some(port) => r matches Ok(m) && m.broker@ == brokers@[0]@.subrange(0, i)
                        && m.port == port && m.topic == topic && m.ledger.wf()
                        && m.ledger.state == RunState::Idle && m.ledger.hashes@.len() == 0,
                },
            },
    {
        if brokers.len() == 0 {
            return Err(SetupError::NoBroker);
        }
        if brokers.len() > 1 {
            return Err(SetupError::TooManyBrokers);
        }
        match split_host_port(brokers[0].as_str()) {
            Some((broker, port)) => Ok(
                MQTT3Receiver { broker, port, topic, ledger: DeliveryLedger::new() },
            ),
            None => Err(SetupError::MalformedAddress),
        }
    }

    /// Starts receiving if idle; true when the receive loop is to be started.
    pub fn begin(&mut self) -> (started: bool)
        ensures
            started == (old(self).ledger.state == RunState::Idle),
            final(self).ledger.state == state_after_begin(old(self).ledger.state),
            final(self).ledger.hashes == old(self).ledger.hashes,
            final(self).ledger.count == old(self).ledger.count,
    {
        self.ledger.begin()
    }

    pub fn end(&mut self)
        ensures
            final(self).ledger.state == state_after_end(old(self).ledger.state),
            final(self).ledger.hashes == old(self).ledger.hashes,
            final(self).ledger.count == old(self).ledger.count,
    {
        self.ledger.end()
    }

    pub fn get_received_messages_hashes(&self) -> (r: Vec<String>)
        ensures
            views(r@) == views(self.ledger.hashes@),
    {
        self.ledger.hashes()
    }

    pub fn get_received_messages(&self) -> (r: u64)
        requires
            self.ledger.wf(),
        ensures
            r == self.ledger.hashes@.len(),
    {
        self.ledger.count
    }
}

} // verus!
