//! The generation pipeline: a topic population and a buffer of messages
//! synthesised from it, with the partition of the work among workers.
use vstd::prelude::*;
use crate::hierarchy::PowerplantElement;
use crate::message::{lemma_synthesized_rejoins, synthesize, synthesized_from, unsupported, Message};
use crate::text::decimal;
use crate::sources::random_in;
use crate::topic::{
    chosen_tag, choice_valid, drawn_from, generate_topics, is_topic_of, plant_ready, GeneratorError,
    TopicChoice, TopicInternal, TOPIC_DEPTH,
};

verus! {

/// Number of worker threads that generate messages in parallel.
pub const WORKERS: usize = 16;

/// Shares `total` among `workers`: each takes `r.0`, and one more caller
/// takes the remainder `r.1`.
pub fn partition_work(total: usize, workers: usize) -> (r: (usize, usize))
    requires
        workers > 0,
    ensures
        r.0 * workers + r.1 == total,
        r.1 < workers,
{
    let per = total / workers;
    let rest = total % workers;
    assert(per * workers + rest == total) by (nonlinear_arith)
        requires
            per == total / workers,
            rest == total % workers,
            workers > 0,
    ;
    (per, rest)
}

/// Every tag a walk through the hierarchy can reach carries a supported
/// unit and value type.
pub open spec fn plant_supported(plant: &PowerplantElement) -> bool {
    forall|ch: TopicChoice|
        choice_valid(plant, ch) ==> !unsupported(
            #[trigger] chosen_tag(plant, ch).unit,
            chosen_tag(plant, ch).tag_type,
        )
}

/// Some topic of the population can carry a value.
pub open spec fn has_valid_topic(topics: Seq<TopicInternal>) -> bool {
    exists|i: int|
        0 <= i < topics.len() && !unsupported(
            (#[trigger] topics[i]).unit,
            topics[i].value_type,
        )
}

/// `m` was synthesised for a supported topic of the population.
pub open spec fn from_population(m: &Message, topics: Seq<TopicInternal>, split: nat) -> bool {
    exists|i: int|
        0 <= i < topics.len() && !unsupported(topics[i].unit, topics[i].value_type)
            && synthesized_from(m, &#[trigger] topics[i], split)
}

/// What one worker does: `count` messages, each for a topic drawn
/// uniformly among the supported ones. Unsupported topics are never drawn,
/// so every draw yields a message.
pub fn generate_batch(topics: &Vec<TopicInternal>, split_point: usize, count: usize) -> (r: Result<
    Vec<Message>,
    GeneratorError,
>)
    ensures
        count == 0 ==> (r matches Ok(ms) && ms@.len() == 0),
        count > 0 && topics@.len() == 0 ==> r == Err::<Vec<Message>, GeneratorError>(
            GeneratorError::EmptyPopulation,
        ),
        count > 0 && topics@.len() > 0 && !has_valid_topic(topics@) ==> r == Err::<
            Vec<Message>,
            GeneratorError,
        >(GeneratorError::NoValidTopic),
        count > 0 && has_valid_topic(topics@) ==> r is Ok || r == Err::<
            Vec<Message>,
            GeneratorError,
        >(GeneratorError::ClockBeforeEpoch),
        r matches Ok(ms) ==> ms@.len() == count && forall|k: int|
            0 <= k < ms@.len() ==> from_population(&#[trigger] ms@[k], topics@, split_point as nat),
{
    let mut out: Vec<Message> = Vec::new();
    if count == 0 {
        return Ok(out);
    }
    if topics.len() == 0 {
        return Err(GeneratorError::EmptyPopulation);
    }
    let mut valid: Vec<usize> = Vec::new();
    let mut i: usize = 0;
    while i < topics.len()
        invariant
            i <= topics@.len(),
            forall|j: int|
                0 <= j < valid@.len() ==> #[trigger] valid@[j] < topics@.len() && !unsupported(
                    topics@[valid@[j] as int].unit,
                    topics@[valid@[j] as int].value_type,
                ),
            forall|j: int|
                0 <= j < i && !unsupported(topics@[j].unit, topics@[j].value_type)
                    ==> valid@.contains(j as usize),
        decreases topics@.len() - i,
    {
        let t = &topics[i];
        let ghost before = valid@;
        if !(t.unit.is_physical() && matches!(t.value_type, crate::hierarchy::Type::Boolean)) {
            valid.push(i);
            assert(valid@[valid@.len() - 1] == i);
        }
        assert forall|j: int|
            0 <= j < i + 1 && !unsupported(topics@[j].unit, topics@[j].value_type) implies valid@.contains(
            j as usize,
        ) by {
            if j < i {
                assert(before.contains(j as usize));
                let w = choose|w: int| 0 <= w < before.len() && before[w] == j as usize;
                assert(valid@[w] == j as usize);
            } else {
                assert(valid@[valid@.len() - 1] == i);
            }
        }
        i = i + 1;
    }
    if valid.len() == 0 {
        assert(!has_valid_topic(topics@)) by {
            if has_valid_topic(topics@) {
                let j = choose|j: int|
                    0 <= j < topics@.len() && !unsupported(
                        (#[trigger] topics@[j]).unit,
                        topics@[j].value_type,
                    );
                assert(valid@.contains(j as usize));
            }
        }
        return Err(GeneratorError::NoValidTopic);
    }
    assert(has_valid_topic(topics@)) by {
        let j = valid@[0];
        assert(!unsupported(topics@[j as int].unit, topics@[j as int].value_type));
    }
    let mut n: usize = 0;
    while n < count
        invariant
            n <= count,
            out@.len() == n,
            valid@.len() > 0,
            forall|j: int|
                0 <= j < valid@.len() ==> #[trigger] valid@[j] < topics@.len() && !unsupported(
                    topics@[valid@[j] as int].unit,
                    topics@[valid@[j] as int].value_type,
                ),
            forall|k: int|
                0 <= k < out@.len() ==> from_population(
                    &#[trigger] out@[k],
                    topics@,
                    split_point as nat,
                ),
        decreases count - n,
    {
        let pick = random_in(0, valid.len() as u64) as usize;
        let j = valid[pick];
        assert(valid@[pick as int] == j);
        let m = match synthesize(&topics[j], split_point) {
            Ok(m) => m,
            Err(e) => {
                return Err(e);
            },
        };
        assert(from_population(&m, topics@, split_point as nat)) by {
            assert(synthesized_from(&m, &topics@[j as int], split_point as nat));
        }
        out.push(m);
        assert(out@[n as int] == m);
        n = n + 1;
    }
    Ok(out)
}

/// A topic population with a buffer of messages synthesised from it.
pub struct Generator {
    pub topics: Vec<TopicInternal>,
    pub messages: Vec<Message>,
}

impl Generator {
    /// Draws `topic_amount` topics, then synthesises `messages` messages
    /// from them.
    pub fn new(
        plant: &PowerplantElement,
        topic_amount: usize,
        split_point: usize,
        messages: usize,
    ) -> (r: Result<Generator, GeneratorError>)
        ensures
            topic_amount == 0 ==> r == Err::<Generator, GeneratorError>(
                GeneratorError::EmptyPopulation,
            ),
            topic_amount > 0 && plant.sites@.len() == 0 ==> r == Err::<Generator, GeneratorError>(
                GeneratorError::NoSite,
            ),
            r matches Ok(g) ==> g.topics@.len() == topic_amount && g.messages@.len() == messages
                && (forall|i: int|
                0 <= i < g.topics@.len() ==> drawn_from(&#[trigger] g.topics@[i], plant)) && (
            forall|k: int|
                0 <= k < g.messages@.len() ==> from_population(
                    &#[trigger] g.messages@[k],
                    g.topics@,
                    split_point as nat,
                )),
            topic_amount > 0 && messages == 0 && plant_ready(plant) ==> r is Ok,
            topic_amount > 0 && plant.sites@.len() > 0 && !plant_ready(plant) ==> r == Err::<
                Generator,
                GeneratorError,
            >(GeneratorError::EmptyLevel),
            topic_amount > 0 && plant_ready(plant) && plant_supported(plant) ==> r is Ok || r
                == Err::<Generator, GeneratorError>(GeneratorError::ClockBeforeEpoch),
            topic_amount > 0 && plant_ready(plant) && r is Err ==> r == Err::<
                Generator,
                GeneratorError,
            >(GeneratorError::NoValidTopic) || r == Err::<Generator, GeneratorError>(
                GeneratorError::ClockBeforeEpoch,
            ),
    {
        let topics = match generate_topics(plant, topic_amount) {
            Ok(ts) => ts,
            Err(e) => {
                return Err(e);
            },
        };
        proof {
            if plant_supported(plant) {
                assert(drawn_from(&topics@[0], plant));
                let ch = choose|ch: TopicChoice|
                    choice_valid(plant, ch) && #[trigger] is_topic_of(&topics@[0], plant, ch);
                assert(!unsupported(chosen_tag(plant, ch).unit, chosen_tag(plant, ch).tag_type));
                assert(!unsupported(topics@[0].unit, topics@[0].value_type));
                assert(has_valid_topic(topics@));
            }
        }
        let batch = match generate_batch(&topics, split_point, messages) {
            Ok(ms) => ms,
            Err(e) => {
                return Err(e);
            },
        };
        Ok(Generator { topics, messages: batch })
    }

    /// Puts together a population and messages produced elsewhere, such
    /// as by workers running `generate_batch` in parallel.
    pub fn assemble(topics: Vec<TopicInternal>, messages: Vec<Message>) -> (r: Generator)
        ensures
            r.topics == topics,
            r.messages == messages,
    {
        Generator { topics, messages }
    }

    pub fn get_topics(&self) -> (r: &Vec<TopicInternal>)
        ensures
            r == &self.topics,
    {
        &self.topics
    }

    /// Copies of the buffered messages, in order.
    pub fn get_message(&self) -> (r: Vec<Message>)
        ensures
            r@.len() == self.messages@.len(),
            forall|k: int| 0 <= k < r@.len() ==> (#[trigger] r@[k]).same_as(&self.messages@[k]),
    {
        let mut r: Vec<Message> = Vec::new();
        let mut k: usize = 0;
        while k < self.messages.len()
            invariant
                k <= self.messages@.len(),
                r@.len() == k,
                forall|j: int| 0 <= j < k ==> (#[trigger] r@[j]).same_as(&self.messages@[j]),
            decreases self.messages@.len() - k,
        {
            r.push(self.messages[k].duplicate());
            k = k + 1;
        }
        r
    }
}

/// Every message of a batch is a topic's path, split at `split_point` and
/// rejoined with `'.'`, followed by `'.'` and a decimal clock reading.
pub proof fn lemma_batch_rejoins(m: &Message, topics: Seq<TopicInternal>, split: nat)
    requires
        from_population(m, topics, split),
        0 < split < TOPIC_DEPTH,
        forall|i: int|
            0 <= i < topics.len() ==> (#[trigger] topics[i]).wf() && topics[i].segs().len()
                == TOPIC_DEPTH,
    ensures
        exists|i: int, nanos: nat|
            #![trigger topics[i], decimal(nanos)]
            0 <= i < topics.len() && m.topic@ + seq!['.'] + m.key@ == topics[i].name@ + seq!['.']
                + decimal(nanos),
{
    let i = choose|i: int|
        0 <= i < topics.len() && !unsupported(topics[i].unit, topics[i].value_type)
            && synthesized_from(m, &#[trigger] topics[i], split);
    lemma_synthesized_rejoins(m, &topics[i], split);
    let nanos = choose|nanos: nat|
        m.topic@ + seq!['.'] + m.key@ == topics[i].name@ + seq!['.'] + decimal(nanos);
    assert(m.topic@ + seq!['.'] + m.key@ == topics[i].name@ + seq!['.'] + decimal(nanos));
}

} // verus!
