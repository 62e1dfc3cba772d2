//! Concrete topics drawn from the hierarchy.
use vstd::prelude::*;
use vstd::string::*;
use crate::hierarchy::{Area, PowerplantElement, ProductionLine, Tag, Type, Unit};
use crate::sources::random_in;
use crate::text::{decimal, decimal_text, dot_count, dot_free, join_dot, join_with_dots, lemma_join_dot_count, views};

verus! {

/// Why topics or messages could not be produced.
#[derive(Clone, Copy, Debug, PartialEq, Eq, Structural)]
pub enum GeneratorError {
    /// The hierarchy has no site.
    NoSite,
    /// A level reached while walking the hierarchy has no children.
    EmptyLevel,
    /// Zero topics were asked for.
    EmptyPopulation,
    /// No topic of the population can carry a value.
    NoValidTopic,
    /// A boolean value was asked for under a physical unit.
    UnsupportedCombination(Unit),
    /// The system clock reads before the Unix epoch.
    ClockBeforeEpoch,
    /// The payload could not be encoded.
    Encoding,
}

/// Number of segments in every generated topic path.
pub const TOPIC_DEPTH: usize = 9;

/// One walk through the hierarchy: the line number put after the site name,
/// and one child index per level below the first site.
#[derive(Clone, Copy, Debug, PartialEq, Eq, Structural)]
pub struct TopicChoice {
    pub line_number: u64,
    pub area: usize,
    pub production_line: usize,
    pub work_cell: usize,
    pub tag: usize,
}

/// A concrete topic: its dot-joined path, the path's segments and the unit
/// and value type of the tag it ends in.
pub struct TopicInternal {
    pub name: String,
    pub segments: Vec<String>,
    pub unit: Unit,
    pub value_type: Type,
}

impl TopicInternal {
    pub open spec fn segs(&self) -> Seq<Seq<char>> {
        views(self.segments@)
    }

    /// The name is the join of the segments.
    pub open spec fn wf(&self) -> bool {
        self.name@ == join_dot(self.segs())
    }

    pub fn name(&self) -> (r: &str)
        ensures
            r@ == self.name@,
    {
        self.name.as_str()
    }
}

/// Every work cell of the line has a tag, and the line has a work cell.
pub open spec fn line_ready(line: ProductionLine) -> bool {
    &&& line.work_cells@.len() > 0
    &&& forall|c: int|
        0 <= c < line.work_cells@.len() ==> (#[trigger] line.work_cells@[c]).tags@.len() > 0
}

/// The area has a production line, and every line of it is ready.
pub open spec fn area_ready(area: Area) -> bool {
    &&& area.production_lines@.len() > 0
    &&& forall|l: int|
        0 <= l < area.production_lines@.len() ==> line_ready(#[trigger] area.production_lines@[l])
}

/// Every level below the first site has at least one child.
pub open spec fn plant_ready(plant: &PowerplantElement) -> bool {
    &&& plant.sites@.len() > 0
    &&& plant.sites@[0].areas@.len() > 0
    &&& forall|a: int|
        0 <= a < plant.sites@[0].areas@.len() ==> area_ready(#[trigger] plant.sites@[0].areas@[a])
}

fn line_is_ready(line: &ProductionLine) -> (r: bool)
    ensures
        r == line_ready(*line),
{
    if line.work_cells.len() == 0 {
        return false;
    }
    let mut c: usize = 0;
    while c < line.work_cells.len()
        invariant
            c <= line.work_cells@.len(),
            forall|k: int| 0 <= k < c ==> (#[trigger] line.work_cells@[k]).tags@.len() > 0,
        decreases line.work_cells@.len() - c,
    {
        if line.work_cells[c].tags.len() == 0 {
            return false;
        }
        c = c + 1;
    }
    true
}

fn area_is_ready(area: &Area) -> (r: bool)
    ensures
        r == area_ready(*area),
{
    if area.production_lines.len() == 0 {
        return false;
    }
    let mut l: usize = 0;
    while l < area.production_lines.len()
        invariant
            l <= area.production_lines@.len(),
            forall|k: int| 0 <= k < l ==> line_ready(#[trigger] area.production_lines@[k]),
        decreases area.production_lines@.len() - l,
    {
        if !line_is_ready(&area.production_lines[l]) {
            return false;
        }
        l = l + 1;
    }
    true
}

/// Checks that every level below the first site has at least one child.
pub fn plant_is_ready(plant: &PowerplantElement) -> (r: bool)
    ensures
        r == plant_ready(plant),
{
    if plant.sites.len() == 0 {
        return false;
    }
    let areas = &plant.sites[0].areas;
    if areas.len() == 0 {
        return false;
    }
    let mut a: usize = 0;
    while a < areas.len()
        invariant
            a <= areas@.len(),
            areas@ == plant.sites@[0].areas@,
            forall|k: int| 0 <= k < a ==> area_ready(#[trigger] areas@[k]),
        decreases areas@.len() - a,
    {
        if !area_is_ready(&areas[a]) {
            return false;
        }
        a = a + 1;
    }
    true
}

pub open spec fn choice_valid(plant: &PowerplantElement, ch: TopicChoice) -> bool {
    &&& plant.sites@.len() > 0
    &&& 1 <= ch.line_number <= 4
    &&& ch.area < plant.sites@[0].areas@.len()
    &&& ch.production_line < plant.sites@[0].areas@[ch.area as int].production_lines@.len()
    &&& ch.work_cell < plant.sites@[0].areas@[ch.area as int].production_lines@[
        ch.production_line as int].work_cells@.len()
    &&& ch.tag < plant.sites@[0].areas@[ch.area as int].production_lines@[
        ch.production_line as int].work_cells@[ch.work_cell as int].tags@.len()
}

pub open spec fn chosen_tag(plant: &PowerplantElement, ch: TopicChoice) -> Tag {
    plant.sites@[0].areas@[ch.area as int].production_lines@[ch.production_line as int].work_cells@[
        ch.work_cell as int].tags@[ch.tag as int]
}

/// The path segments of the topic a walk leads to.
pub open spec fn topic_segments(plant: &PowerplantElement, ch: TopicChoice) -> Seq<Seq<char>> {
    let site = plant.sites@[0];
    let area = site.areas@[ch.area as int];
    let line = area.production_lines@[ch.production_line as int];
    let cell = line.work_cells@[ch.work_cell as int];
    let tag = cell.tags@[ch.tag as int];
    seq![
        "umh"@,
        "v1"@,
        plant.enterprise@,
        site.site@ + decimal(ch.line_number as nat),
        area.area@,
        line.production_line@,
        cell.work_cell@,
        cell.tag_group@,
        tag.name@,
    ]
}

/// `t` is the topic that the walk `ch` leads to.
pub open spec fn is_topic_of(t: &TopicInternal, plant: &PowerplantElement, ch: TopicChoice) -> bool {
    &&& t.wf()
    &&& t.segs() == topic_segments(plant, ch)
    &&& t.unit == chosen_tag(plant, ch).unit
    &&& t.value_type == chosen_tag(plant, ch).tag_type
}

/// `t` is the topic of some valid walk through the hierarchy.
pub open spec fn drawn_from(t: &TopicInternal, plant: &PowerplantElement) -> bool {
    exists|ch: TopicChoice| choice_valid(plant, ch) && #[trigger] is_topic_of(t, plant, ch)
}

/// Every name on a walk is free of dots.
pub open spec fn names_dot_free(plant: &PowerplantElement, ch: TopicChoice) -> bool {
    forall|i: int| 2 <= i < TOPIC_DEPTH ==> dot_free(#[trigger] topic_segments(plant, ch)[i])
}

/// Builds the topic that a walk leads to.
pub fn topic_for(plant: &PowerplantElement, ch: TopicChoice) -> (r: TopicInternal)
    requires
        choice_valid(plant, ch),
    ensures
        is_topic_of(&r, plant, ch),
{
    let site = &plant.sites[0];
    let area = &site.areas[ch.area];
    let line = &area.production_lines[ch.production_line];
    let cell = &line.work_cells[ch.work_cell];
    let tag = &cell.tags[ch.tag];
    let number = decimal_text(ch.line_number as u128, 0);
    let mut segments: Vec<String> = Vec::new();
    segments.push(String::from_str("umh"));
    segments.push(String::from_str("v1"));
    segments.push(plant.enterprise.clone());
    segments.push(site.site.clone().concat(number.as_str()));
    segments.push(area.area.clone());
    segments.push(line.production_line.clone());
    segments.push(cell.work_cell.clone());
    segments.push(cell.tag_group.clone());
    segments.push(tag.name.clone());
    assert(views(segments@) =~= topic_segments(plant, ch));
    let name = join_with_dots(&segments);
    TopicInternal { name, segments, unit: tag.unit, value_type: tag.tag_type }
}

/// The path of a generated topic has one segment per level of the
/// hierarchy: as many dots as levels less one.
pub proof fn lemma_topic_depth(t: &TopicInternal, plant: &PowerplantElement, ch: TopicChoice)
    requires
        is_topic_of(t, plant, ch),
        names_dot_free(plant, ch),
    ensures
        t.segs().len() == TOPIC_DEPTH,
        dot_count(t.name@) == TOPIC_DEPTH - 1,
{
    let segs = topic_segments(plant, ch);
    reveal_strlit("umh");
    reveal_strlit("v1");
    assert forall|i: int| 0 <= i < segs.len() implies dot_free(#[trigger] segs[i]) by {
        if i == 0 {
            assert(segs[0] == "umh"@);
        } else if i == 1 {
            assert(segs[1] == "v1"@);
        }
    }
    lemma_join_dot_count(segs);
}

/// Draws one walk through the hierarchy, choosing uniformly at every level.
fn draw_choice(plant: &PowerplantElement) -> (r: Result<TopicChoice, GeneratorError>)
    ensures
        r matches Ok(ch) ==> choice_valid(plant, ch),
        r is Err ==> !plant_ready(plant),
        plant.sites@.len() == 0 ==> r == Err::<TopicChoice, GeneratorError>(GeneratorError::NoSite),
{
    if plant.sites.len() == 0 {
        return Err(GeneratorError::NoSite);
    }
    let site = &plant.sites[0];
    let line_number = random_in(1, 5);
    if site.areas.len() == 0 {
        return Err(GeneratorError::EmptyLevel);
    }
    let a = random_in(0, site.areas.len() as u64) as usize;
    let area = &site.areas[a];
    if area.production_lines.len() == 0 {
        return Err(GeneratorError::EmptyLevel);
    }
    let l = random_in(0, area.production_lines.len() as u64) as usize;
    let line = &area.production_lines[l];
    if line.work_cells.len() == 0 {
        return Err(GeneratorError::EmptyLevel);
    }
    let c = random_in(0, line.work_cells.len() as u64) as usize;
    let cell = &line.work_cells[c];
    if cell.tags.len() == 0 {
        return Err(GeneratorError::EmptyLevel);
    }
    let t = random_in(0, cell.tags.len() as u64) as usize;
    Ok(TopicChoice { line_number, area: a, production_line: l, work_cell: c, tag: t })
}

/// Draws `count` topics, each by its own random walk through the hierarchy.
pub fn generate_topics(plant: &PowerplantElement, count: usize) -> (r: Result<
    Vec<TopicInternal>,
    GeneratorError,
>)
    ensures
        count == 0 ==> r == Err::<Vec<TopicInternal>, GeneratorError>(
            GeneratorError::EmptyPopulation,
        ),
        count > 0 && plant.sites@.len() == 0 ==> r == Err::<Vec<TopicInternal>, GeneratorError>(
            GeneratorError::NoSite,
        ),
        count > 0 && plant.sites@.len() > 0 && !plant_ready(plant) ==> r
            == Err::<Vec<TopicInternal>, GeneratorError>(GeneratorError::EmptyLevel),
        count > 0 ==> (r is Ok <==> plant_ready(plant)),
        r matches Ok(ts) ==> ts@.len() == count && forall|i: int|
            0 <= i < ts@.len() ==> drawn_from(&#[trigger] ts@[i], plant),
{
    if count == 0 {
        return Err(GeneratorError::EmptyPopulation);
    }
    if plant.sites.len() == 0 {
        return Err(GeneratorError::NoSite);
    }
    if !plant_is_ready(plant) {
        return Err(GeneratorError::EmptyLevel);
    }
    let mut topics: Vec<TopicInternal> = Vec::new();
    let mut i: usize = 0;
    while i < count
        invariant
            i <= count,
            topics@.len() == i,
            plant_ready(plant),
            forall|j: int| 0 <= j < topics@.len() ==> drawn_from(&#[trigger] topics@[j], plant),
        decreases count - i,
    {
        let ch = match draw_choice(plant) {
            Ok(ch) => ch,
            Err(e) => {
                return Err(e);
            },
        };
        let t = topic_for(plant, ch);
        topics.push(t);
        assert(is_topic_of(&topics@[i as int], plant, ch));
        i = i + 1;
    }
    Ok(topics)
}

} // verus!
