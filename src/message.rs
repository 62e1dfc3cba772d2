//! Synthesis of one message for a topic: routing split, uniqueness suffix
//! and a flat JSON payload with a timestamp and one value field.
use vstd::prelude::*;
use vstd::string::*;
use vstd::utf8::encode_utf8;
use crate::hierarchy::{field_name_of, Type, Unit};
use crate::sources::{random_in, unix_time_nanos};
use crate::text::{
    decimal, decimal_text, entries_plain, entry_views, join_dot, join_range, json_object,
    json_plain, json_plain_char, keys_ascending, lemma_decimal_digits, lemma_pad_digits, pad_zeros,
    str_lt, views,
};
use crate::topic::{GeneratorError, TopicInternal};

verus! {

#[verifier::external_type_specification]
#[verifier::external_body]
pub struct ExJsonError(serde_json::Error);

/// A message ready to publish: the channel it is routed on, the rest of the
/// path with a uniqueness suffix, and the payload bytes.
pub struct Message {
    pub topic: String,
    pub value: Vec<u8>,
    pub key: String,
}

impl Message {
    pub open spec fn same_as(&self, other: &Message) -> bool {
        self.topic@ == other.topic@ && self.value@ == other.value@ && self.key@ == other.key@
    }

    /// A copy of the message.
    pub fn duplicate(&self) -> (r: Message)
        ensures
            r.same_as(self),
    {
        Message {
            topic: self.topic.clone(),
            value: vstd::slice::slice_to_vec(self.value.as_slice()),
            key: self.key.clone(),
        }
    }
}

/// Booleans exist only for tags without a physical unit.
pub open spec fn unsupported(u: Unit, t: Type) -> bool {
    u.is_physical_spec() && t == Type::Boolean
}

/// Half-open range `lo..hi` of the drawn number for a unit and value type.
/// Booleans draw 0 or 1; floats draw a count of millionths (of
/// billionths for sieverts per hour), integers the value itself.
pub open spec fn value_bounds(u: Unit, t: Type) -> (u64, u64) {
    match t {
        Type::Boolean => (0, 2),
        Type::Int => match u {
            Unit::NoUnit => (0, 1),
            Unit::DegreeC => (0, 1000),
            Unit::Percent => (0, 100),
            Unit::Pascal => (100, 10_000_000),
            Unit::CubicMetersPerHour => (0, 100),
            Unit::Volt => (0, 1000),
            Unit::Ampere => (0, 1000),
            Unit::SievertPerHour => (0, 1),
            Unit::RotationsPerMinute => (0, 1000),
            Unit::Watt => (0, 1_000_000),
            Unit::Speed => (0, 1000),
        },
        Type::Float => match u {
            Unit::NoUnit => (0, 1_000_000),
            Unit::DegreeC => (0, 1_000_000_000),
            Unit::Percent => (0, 100_000_000),
            Unit::Pascal => (100_000_000, 10_000_000_000_000),
            Unit::CubicMetersPerHour => (0, 100_000_000),
            Unit::Volt => (0, 1_000_000_000),
            Unit::Ampere => (0, 1_000_000_000),
            Unit::SievertPerHour => (0, 1_000_000_000),
            Unit::RotationsPerMinute => (0, 1_000_000_000),
            Unit::Watt => (0, 1_000_000_000_000),
            Unit::Speed => (0, 1_000_000_000),
        },
    }
}

/// Digits after the decimal point of a float value.
pub open spec fn fraction_digits(u: Unit) -> nat {
    if u == Unit::SievertPerHour {
        9
    } else {
        6
    }
}

pub open spec fn pow10(d: nat) -> nat
    decreases d,
{
    if d == 0 {
        1
    } else {
        10 * pow10((d - 1) as nat)
    }
}

/// The text of the value field for a drawn number.
pub open spec fn value_text(u: Unit, t: Type, v: nat) -> Seq<char> {
    match t {
        Type::Boolean => if v == 0 {
            "false"@
        } else {
            "true"@
        },
        Type::Int => decimal(v),
        Type::Float => {
            let scale = pow10(fraction_digits(u));
            decimal(v / scale) + seq!['.'] + pad_zeros(decimal(v % scale), fraction_digits(u))
        },
    }
}

/// The value key sorts before `timestamp_ms`.
pub open spec fn field_first(u: Unit) -> bool {
    !(u == Unit::NoUnit || u == Unit::Volt || u == Unit::Watt)
}

/// The payload's members in key order: the timestamp in milliseconds and the
/// unit's value field.
pub open spec fn payload_entries(u: Unit, value: Seq<char>, millis: Seq<char>) -> Seq<
    (Seq<char>, Seq<char>),
> {
    if field_first(u) {
        seq![(field_name_of(u), value), ("timestamp_ms"@, millis)]
    } else {
        seq![("timestamp_ms"@, millis), (field_name_of(u), value)]
    }
}

/// Number of leading segments that form the routing channel.
pub open spec fn split_at(segs: Seq<Seq<char>>, split: nat) -> int {
    if split < segs.len() {
        split as int
    } else {
        segs.len() as int
    }
}

/// `m` is the message for `t`, split at `split`, stamped with `nanos` and
/// carrying the drawn number `v`.
pub open spec fn message_of(m: &Message, t: &TopicInternal, split: nat, nanos: nat, v: nat) -> bool {
    let segs = t.segs();
    let k = split_at(segs, split);
    &&& m.topic@ == join_dot(segs.subrange(0, k))
    &&& m.key@ == join_dot(segs.subrange(k, segs.len() as int)) + seq!['.'] + decimal(nanos)
    &&& m.value@ == encode_utf8(
        json_object(
            payload_entries(t.unit, value_text(t.unit, t.value_type, v), decimal(nanos / 1_000_000)),
        ),
    )
}

/// `m` is a message for `t` at some clock reading, carrying a number drawn
/// from the range of `t`'s unit and value type.
pub open spec fn synthesized_from(m: &Message, t: &TopicInternal, split: nat) -> bool {
    exists|nanos: nat, v: u64|
        value_bounds(t.unit, t.value_type).0 <= v < value_bounds(t.unit, t.value_type).1
            && #[trigger] message_of(m, t, split, nanos, v as nat)
}

/// Relies on serde_json::to_vec on a BTreeMap of string keys and values:
/// the compact JSON object with its members in key order and strings
/// escaped. Maps with string keys always serialise.
#[verifier::external_body]
fn json_object_bytes(entries: &Vec<(String, String)>) -> (r: Result<Vec<u8>, serde_json::Error>)
    ensures
        r is Ok,
        r matches Ok(b) ==> (keys_ascending(entry_views(entries@)) && entries_plain(
            entry_views(entries@),
        ) ==> b@ == encode_utf8(json_object(entry_views(entries@)))),
{
    let map: std::collections::BTreeMap<&str, &str> = entries.iter().map(
        |e| (e.0.as_str(), e.1.as_str()),
    ).collect();
    serde_json::to_vec(&map)
}

proof fn lemma_str_lt_first(a: Seq<char>, b: Seq<char>)
    requires
        a.len() > 0,
        b.len() > 0,
        a[0] < b[0],
    ensures
        str_lt(a, b),
{
    assert(a.subrange(0, 0) =~= b.subrange(0, 0));
}

/// Field names are plain JSON and order against `timestamp_ms` as
/// `field_first` says.
proof fn lemma_field_name(u: Unit)
    ensures
        json_plain(field_name_of(u)),
        json_plain("timestamp_ms"@),
        field_first(u) ==> str_lt(field_name_of(u), "timestamp_ms"@),
        !field_first(u) ==> str_lt("timestamp_ms"@, field_name_of(u)),
{
    reveal_strlit("timestamp_ms");
    reveal_strlit("value");
    reveal_strlit("degreeC");
    reveal_strlit("percent");
    reveal_strlit("pascal");
    reveal_strlit("cubicMetersPerHour");
    reveal_strlit("volt");
    reveal_strlit("ampere");
    reveal_strlit("sievertPerHour");
    reveal_strlit("rotationsPerMinute");
    reveal_strlit("watt");
    reveal_strlit("metersPerSecond");
    let f = field_name_of(u);
    let ts = "timestamp_ms"@;
    assert(json_plain(f));
    assert(json_plain(ts));
    if field_first(u) {
        lemma_str_lt_first(f, ts);
    } else {
        lemma_str_lt_first(ts, f);
    }
}

proof fn lemma_value_plain(u: Unit, t: Type, v: nat)
    ensures
        json_plain(value_text(u, t, v)),
{
    reveal_strlit("true");
    reveal_strlit("false");
    lemma_decimal_digits(v);
    if t == Type::Float {
        let scale = pow10(fraction_digits(u));
        let a = decimal(v / scale);
        let b = pad_zeros(decimal(v % scale), fraction_digits(u));
        lemma_decimal_digits(v / scale);
        lemma_pad_digits(v % scale, fraction_digits(u));
        let s = a + seq!['.'] + b;
        assert forall|i: int| 0 <= i < s.len() implies json_plain_char(#[trigger] s[i]) by {
            if i < a.len() {
                assert(s[i] == a[i]);
            } else if i == a.len() {
                assert(s[i] == '.');
            } else {
                assert(s[i] == b[i - a.len() - 1]);
            }
        }
    }
}

/// The drawn-number range for a unit and value type; `None` where the
/// combination is unsupported.
pub fn value_range(unit: Unit, value_type: Type) -> (r: Option<(u64, u64)>)
    ensures
        unsupported(unit, value_type) ==> r is None,
        !unsupported(unit, value_type) ==> r == Some(value_bounds(unit, value_type)),
{
    match value_type {
        Type::Boolean => if unit.is_physical() {
            None
        } else {
            Some((0, 2))
        },
        Type::Int => Some(
            match unit {
                Unit::NoUnit => (0, 1),
                Unit::DegreeC => (0, 1000),
                Unit::Percent => (0, 100),
                Unit::Pascal => (100, 10_000_000),
                Unit::CubicMetersPerHour => (0, 100),
                Unit::Volt => (0, 1000),
                Unit::Ampere => (0, 1000),
                Unit::SievertPerHour => (0, 1),
                Unit::RotationsPerMinute => (0, 1000),
                Unit::Watt => (0, 1_000_000),
                Unit::Speed => (0, 1000),
            },
        ),
        Type::Float => Some(
            match unit {
                Unit::NoUnit => (0, 1_000_000),
                Unit::DegreeC => (0, 1_000_000_000),
                Unit::Percent => (0, 100_000_000),
                Unit::Pascal => (100_000_000, 10_000_000_000_000),
                Unit::CubicMetersPerHour => (0, 100_000_000),
                Unit::Volt => (0, 1_000_000_000),
                Unit::Ampere => (0, 1_000_000_000),
                Unit::SievertPerHour => (0, 1_000_000_000),
                Unit::RotationsPerMinute => (0, 1_000_000_000),
                Unit::Watt => (0, 1_000_000_000_000),
                Unit::Speed => (0, 1_000_000_000),
            },
        ),
    }
}

/// Writes the value field's text for a drawn number.
pub fn render_value(unit: Unit, value_type: Type, v: u64) -> (r: String)
    ensures
        r@ == value_text(unit, value_type, v as nat),
{
    match value_type {
        Type::Boolean => if v == 0 {
            String::from_str("false")
        } else {
            String::from_str("true")
        },
        Type::Int => decimal_text(v as u128, 0),
        Type::Float => {
            let (scale, digits): (u64, usize) = if matches!(unit, Unit::SievertPerHour) {
                (1_000_000_000, 9)
            } else {
                (1_000_000, 6)
            };
            assert(pow10(fraction_digits(unit)) == scale) by {
                reveal_with_fuel(pow10, 10);
            }
            let whole = decimal_text((v / scale) as u128, 0);
            let fraction = decimal_text((v % scale) as u128, digits);
            proof {
                reveal_strlit(".");
            }
            let r = whole.concat(".").concat(fraction.as_str());
            assert("."@ =~= seq!['.']);
            r
        },
    }
}

/// Builds the message for a topic from the clock reading and the drawn
/// number; fails only for a boolean under a physical unit.
pub fn compose_message(topic: &TopicInternal, split: usize, nanos: u128, v: u64) -> (r: Result<
    Message,
    GeneratorError,
>)
    ensures
        unsupported(topic.unit, topic.value_type) ==> r == Err::<Message, GeneratorError>(
            GeneratorError::UnsupportedCombination(topic.unit),
        ),
        !unsupported(topic.unit, topic.value_type) ==> (r matches Ok(m) && message_of(
            &m,
            topic,
            split as nat,
            nanos as nat,
            v as nat,
        )),
{
    if topic.unit.is_physical() && matches!(topic.value_type, Type::Boolean) {
        return Err(GeneratorError::UnsupportedCombination(topic.unit));
    }
    let n = topic.segments.len();
    let k = if split < n {
        split
    } else {
        n
    };
    let channel = join_range(&topic.segments, 0, k);
    let stem = join_range(&topic.segments, k, n);
    let stamp = decimal_text(nanos, 0);
    proof {
        reveal_strlit(".");
    }
    let key = stem.concat(".").concat(stamp.as_str());
    assert("."@ =~= seq!['.']);
    let value = render_value(topic.unit, topic.value_type, v);
    let millis = decimal_text(nanos / 1_000_000, 0);
    let field = String::from_str(topic.unit.field_name());
    let ts = String::from_str("timestamp_ms");
    let mut entries: Vec<(String, String)> = Vec::new();
    if field_first_exec(topic.unit) {
        entries.push((field, value));
        entries.push((ts, millis));
    } else {
        entries.push((ts, millis));
        entries.push((field, value));
    }
    let ghost es = payload_entries(
        topic.unit,
        value_text(topic.unit, topic.value_type, v as nat),
        decimal(nanos as nat / 1_000_000),
    );
    assert(entry_views(entries@) =~= es);
    proof {
        lemma_field_name(topic.unit);
        lemma_value_plain(topic.unit, topic.value_type, v as nat);
        lemma_decimal_digits(nanos as nat / 1_000_000);
        let m = decimal(nanos as nat / 1_000_000);
        assert(json_plain(m));
        assert(json_plain(es[0].0) && json_plain(es[0].1));
        assert(json_plain(es[1].0) && json_plain(es[1].1));
        assert(entries_plain(es));
        assert(keys_ascending(es));
    }
    let payload = match json_object_bytes(&entries) {
        Ok(b) => b,
        Err(_) => {
            return Err(GeneratorError::Encoding);
        },
    };
    Ok(Message { topic: channel, value: payload, key })
}

fn field_first_exec(u: Unit) -> (r: bool)
    ensures
        r == field_first(u),
{
    !matches!(u, Unit::NoUnit | Unit::Volt | Unit::Watt)
}

/// Synthesises one message for a topic, reading the clock and drawing the
/// value uniformly from the unit's range. A boolean under a physical unit is
/// refused before anything is drawn, so the caller can draw another topic.
pub fn synthesize(topic: &TopicInternal, split: usize) -> (r: Result<Message, GeneratorError>)
    ensures
        unsupported(topic.unit, topic.value_type) ==> r == Err::<Message, GeneratorError>(
            GeneratorError::UnsupportedCombination(topic.unit),
        ),
        !unsupported(topic.unit, topic.value_type) ==> r is Ok || r == Err::<
            Message,
            GeneratorError,
        >(GeneratorError::ClockBeforeEpoch),
        r matches Ok(m) ==> synthesized_from(&m, topic, split as nat),
{
    let (lo, hi) = match value_range(topic.unit, topic.value_type) {
        Some(bounds) => bounds,
        None => {
            return Err(GeneratorError::UnsupportedCombination(topic.unit));
        },
    };
    let nanos = match unix_time_nanos() {
        Some(n) => n,
        None => {
            return Err(GeneratorError::ClockBeforeEpoch);
        },
    };
    let v = random_in(lo, hi);
    let r = compose_message(topic, split, nanos, v);
    assert(r matches Ok(m) && message_of(&m, topic, split as nat, nanos as nat, v as nat));
    assert(r matches Ok(m) && synthesized_from(&m, topic, split as nat));
    r
}

/// Rejoining a message's channel and key with `'.'` gives the topic's path
/// followed by `'.'` and the uniqueness suffix, whenever the split leaves
/// segments on both sides.
pub proof fn lemma_split_rejoin(m: &Message, t: &TopicInternal, split: nat, nanos: nat, v: nat)
    requires
        message_of(m, t, split, nanos, v),
        t.wf(),
        0 < split < t.segs().len(),
    ensures
        m.topic@ + seq!['.'] + m.key@ == t.name@ + seq!['.'] + decimal(nanos),
{
    let segs = t.segs();
    let k = split as int;
    crate::text::lemma_join_dot_split(segs, k);
    let a = join_dot(segs.subrange(0, k));
    let b = join_dot(segs.subrange(k, segs.len() as int));
    assert(m.topic@ + seq!['.'] + m.key@ =~= (a + seq!['.'] + b) + seq!['.'] + decimal(nanos));
}

/// The channel a topic's messages are routed on.
pub open spec fn channel_of(t: &TopicInternal, split: nat) -> Seq<char> {
    join_dot(t.segs().subrange(0, split_at(t.segs(), split)))
}

/// The distinct channels of a population, in order of first appearance:
/// the topics a broker has to hold.
pub fn unique_channels(topics: &Vec<TopicInternal>, split: usize) -> (r: Vec<String>)
    ensures
        views(r@).no_duplicates(),
        forall|h: Seq<char>|
            views(r@).contains(h) <==> exists|i: int|
                0 <= i < topics@.len() && channel_of(&#[trigger] topics@[i], split as nat) == h,
{
    let mut r: Vec<String> = Vec::new();
    let mut i: usize = 0;
    while i < topics.len()
        invariant
            i <= topics@.len(),
            views(r@).no_duplicates(),
            forall|h: Seq<char>|
                views(r@).contains(h) <==> exists|k: int|
                    0 <= k < i && channel_of(&#[trigger] topics@[k], split as nat) == h,
        decreases topics@.len() - i,
    {
        let t = &topics[i];
        let n = t.segments.len();
        let k = if split < n {
            split
        } else {
            n
        };
        let c = join_range(&t.segments, 0, k);
        let ghost before = views(r@);
        let mut j: usize = 0;
        let mut seen = false;
        while j < r.len()
            invariant
                j <= r@.len(),
                views(r@) == before,
                seen ==> before.contains(c@),
                !seen ==> forall|x: int| 0 <= x < j ==> before[x] != c@,
            decreases r@.len() - j,
        {
            if r[j] == c {
                assert(before[j as int] == c@);
                seen = true;
            }
            j = j + 1;
        }
        if !seen {
            r.push(c);
            assert(views(r@) =~= before.push(channel_of(&topics@[i as int], split as nat)));
        }
        assert forall|h: Seq<char>|
            views(r@).contains(h) <==> exists|k: int|
                0 <= k < i + 1 && channel_of(&#[trigger] topics@[k], split as nat) == h by {
            let ch = channel_of(&topics@[i as int], split as nat);
            if views(r@).contains(h) {
                let w = choose|w: int| 0 <= w < views(r@).len() && views(r@)[w] == h;
                if w < before.len() {
                    assert(before.contains(h));
                } else {
                    assert(h == ch);
                }
            }
            if exists|k: int| 0 <= k < i + 1 && channel_of(&#[trigger] topics@[k], split as nat) == h {
                let k = choose|k: int|
                    0 <= k < i + 1 && channel_of(&#[trigger] topics@[k], split as nat) == h;
                if k < i {
                    assert(before.contains(h));
                    let w = choose|w: int| 0 <= w < before.len() && before[w] == h;
                    assert(views(r@)[w] == h);
                } else if seen {
                    let w = choose|w: int| 0 <= w < before.len() && before[w] == h;
                    assert(views(r@)[w] == h);
                } else {
                    assert(views(r@)[before.len() as int] == h);
                }
            }
        }
        i = i + 1;
    }
    r
}

/// A synthesised message rejoins to its topic's path followed by `'.'` and
/// a decimal clock reading, whenever the split leaves segments on both
/// sides.
pub proof fn lemma_synthesized_rejoins(m: &Message, t: &TopicInternal, split: nat)
    requires
        synthesized_from(m, t, split),
        t.wf(),
        0 < split < t.segs().len(),
    ensures
        exists|nanos: nat| m.topic@ + seq!['.'] + m.key@ == t.name@ + seq!['.'] + decimal(nanos),
{
    let (nanos, v) = choose|nanos: nat, v: u64|
        value_bounds(t.unit, t.value_type).0 <= v < value_bounds(t.unit, t.value_type).1
            && #[trigger] message_of(m, t, split, nanos, v as nat);
    lemma_split_rejoin(m, t, split, nanos, v as nat);
}

} // verus!
