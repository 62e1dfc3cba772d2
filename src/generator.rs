//! Message generators: a population of topics drawn once, sampled with
//! replacement for every message.
use vstd::prelude::*;
use crate::hierarchy::PowerplantElement;
use crate::message::{synthesize, synthesized_from, unsupported, Message};
use crate::sources::rand_entry;
use crate::topic::{drawn_from, generate_topics, plant_ready, GeneratorError, TopicInternal};

verus! {

/// No topic of the population asks for a boolean under a physical unit.
pub open spec fn all_supported(topics: Seq<TopicInternal>) -> bool {
    forall|i: int|
        0 <= i < topics.len() ==> !unsupported(
            (#[trigger] topics[i]).unit,
            topics[i].value_type,
        )
}

/// A source of messages that alternate topic models can provide: a
/// population of topics drawn from a hierarchy, and messages synthesised
/// for topics drawn from that population.
pub trait Generator: Sized {
    /// The topics messages are drawn for.
    spec fn population(&self) -> Seq<TopicInternal>;

    /// Number of leading path segments that form a message's channel.
    spec fn split(&self) -> nat;

    /// Draws a population of `number_of_topics` topics from the hierarchy.
    /// An empty population is refused; so is a hierarchy without a site or
    /// with an empty level anywhere below its first site.
    fn new(plant: &PowerplantElement, split_point: usize, number_of_topics: usize) -> (r: Result<
        Self,
        GeneratorError,
    >)
        ensures
            number_of_topics == 0 ==> r is Err && r->Err_0 == GeneratorError::EmptyPopulation,
            number_of_topics > 0 && plant.sites@.len() == 0 ==> r is Err && r->Err_0
                == GeneratorError::NoSite,
            number_of_topics > 0 ==> (r is Ok <==> plant_ready(plant)),
            number_of_topics > 0 && plant.sites@.len() > 0 && !plant_ready(plant) ==> r is Err
                && r->Err_0 == GeneratorError::EmptyLevel,
            r matches Ok(g) ==> g.split() == split_point && g.population().len() == number_of_topics
                && forall|i: int|
                0 <= i < g.population().len() ==> drawn_from(&#[trigger] g.population()[i], plant),
    ;

    /// Draws one topic of the population and synthesises a message for it.
    /// A topic with a boolean under a physical unit yields the skip signal
    /// `UnsupportedCombination`, so the caller can draw again.
    fn get_message(&self) -> (r: Result<Message, GeneratorError>)
        ensures
            self.population().len() == 0 <==> r is Err && r->Err_0
                == GeneratorError::EmptyPopulation,
            self.population().len() > 0 && all_supported(self.population()) ==> r is Ok || (r is Err
                && r->Err_0 == GeneratorError::ClockBeforeEpoch),
            r matches Ok(m) ==> exists|i: int|
                0 <= i < self.population().len() && synthesized_from(
                    &m,
                    &#[trigger] self.population()[i],
                    self.split(),
                ),
            r matches Err(GeneratorError::UnsupportedCombination(u)) ==> exists|i: int|
                0 <= i < self.population().len() && (#[trigger] self.population()[i]).unit == u
                    && unsupported(self.population()[i].unit, self.population()[i].value_type),
            r matches Err(e) ==> e == GeneratorError::EmptyPopulation || e
                == GeneratorError::ClockBeforeEpoch || e is UnsupportedCombination,
    ;

    /// Draws `number_of_topics` more topics into the population, keeping
    /// the ones it has. Fails, changing nothing, when topics are asked of a
    /// hierarchy that is not ready.
    fn generate_topics(&mut self, plant: &PowerplantElement, number_of_topics: usize) -> (r: Result<
        (),
        GeneratorError,
    >)
        ensures
            final(self).split() == old(self).split(),
            r is Err ==> final(self).population() == old(self).population(),
            r is Err <==> number_of_topics > 0 && !plant_ready(plant),
            r is Ok ==> final(self).population().len() == old(self).population().len()
                + number_of_topics && final(self).population().take(
                old(self).population().len() as int,
            ) == old(self).population() && forall|i: int|
                old(self).population().len() <= i < final(self).population().len()
                    ==> drawn_from(&#[trigger] final(self).population()[i], plant),
    ;
}

/// The generator over the power plant hierarchy.
pub struct Chernobyl {
    pub split_point: usize,
    pub topics: Vec<TopicInternal>,
}

impl Generator for Chernobyl {
    open spec fn population(&self) -> Seq<TopicInternal> {
        self.topics@
    }

    open spec fn split(&self) -> nat {
        self.split_point as nat
    }

    fn new(plant: &PowerplantElement, split_point: usize, number_of_topics: usize) -> (r: Result<
        Chernobyl,
        GeneratorError,
    >) {
        match generate_topics(plant, number_of_topics) {
            Ok(topics) => Ok(Chernobyl { split_point, topics }),
            Err(e) => Err(e),
        }
    }

    fn get_message(&self) -> (r: Result<Message, GeneratorError>) {
        if self.topics.len() == 0 {
            return Err(GeneratorError::EmptyPopulation);
        }
        let topic = rand_entry(self.topics.as_slice());
        let r = synthesize(topic, self.split_point);
        let ghost i = choose|i: int| 0 <= i < self.topics@.len() && *topic == self.topics@[i];
        assert(r matches Ok(m) ==> synthesized_from(&m, &self.topics@[i], self.split_point as nat));
        assert(self.population()[i] == self.topics@[i]);
        assert(r matches Ok(m) ==> synthesized_from(&m, &self.population()[i], self.split()));
        assert(r matches Err(GeneratorError::UnsupportedCombination(u)) ==> self.population()[i].unit
            == u && unsupported(self.population()[i].unit, self.population()[i].value_type));
        assert(all_supported(self.topics@) ==> !unsupported(
            self.topics@[i].unit,
            self.topics@[i].value_type,
        ));
        r
    }

    fn generate_topics(&mut self, plant: &PowerplantElement, number_of_topics: usize) -> (r: Result<
        (),
        GeneratorError,
    >) {
        if number_of_topics == 0 {
            assert(self.topics@.take(self.topics@.len() as int) =~= self.topics@);
            return Ok(());
        }
        match generate_topics(plant, number_of_topics) {
            Ok(mut more) => {
                let ghost added = more@;
                self.topics.append(&mut more);
                assert(self.topics@.take(old(self).topics@.len() as int) =~= old(self).topics@);
                assert forall|i: int|
                    old(self).topics@.len() <= i < self.topics@.len() implies drawn_from(
                    &#[trigger] self.topics@[i],
                    plant,
                ) by {
                    assert(self.topics@[i] == added[i - old(self).topics@.len()]);
                }
                Ok(())
            },
            Err(e) => Err(e),
        }
    }
}

} // verus!
