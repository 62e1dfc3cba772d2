//! The static topic hierarchy: enterprise, sites, areas, production lines,
//! work cells and tags.
use vstd::prelude::*;
use vstd::string::*;

verus! {

/// Kind of value a tag carries.
#[derive(Clone, Copy, Debug, PartialEq, Eq, Structural)]
pub enum Type {
    Boolean,
    Float,
    Int,
}

/// Physical unit of a tag.
#[derive(Clone, Copy, Debug, PartialEq, Eq, Structural)]
pub enum Unit {
    NoUnit,
    DegreeC,
    Percent,
    Pascal,
    CubicMetersPerHour,
    Volt,
    Ampere,
    SievertPerHour,
    RotationsPerMinute,
    Watt,
    Speed,
}

/// The symbol a unit is written with in the hierarchy definition.
pub open spec fn unit_symbol(u: Unit) -> Seq<char> {
    match u {
        Unit::NoUnit => ""@,
        Unit::DegreeC => "°C"@,
        Unit::Percent => "%"@,
        Unit::Pascal => "Pa"@,
        Unit::CubicMetersPerHour => "m3/h"@,
        Unit::Volt => "V"@,
        Unit::Ampere => "A"@,
        Unit::SievertPerHour => "Sv/h"@,
        Unit::RotationsPerMinute => "rpm"@,
        Unit::Watt => "W"@,
        Unit::Speed => "m/s"@,
    }
}

/// The payload key under which a value of this unit is written.
pub open spec fn field_name_of(u: Unit) -> Seq<char> {
    match u {
        Unit::NoUnit => "value"@,
        Unit::DegreeC => "degreeC"@,
        Unit::Percent => "percent"@,
        Unit::Pascal => "pascal"@,
        Unit::CubicMetersPerHour => "cubicMetersPerHour"@,
        Unit::Volt => "volt"@,
        Unit::Ampere => "ampere"@,
        Unit::SievertPerHour => "sievertPerHour"@,
        Unit::RotationsPerMinute => "rotationsPerMinute"@,
        Unit::Watt => "watt"@,
        Unit::Speed => "metersPerSecond"@,
    }
}

impl Unit {
    /// True for every unit but `NoUnit`.
    pub open spec fn is_physical_spec(self) -> bool {
        self != Unit::NoUnit
    }

    pub fn is_physical(&self) -> (r: bool)
        ensures
            r == self.is_physical_spec(),
    {
        !matches!(self, Unit::NoUnit)
    }

    /// Reads a unit from its symbol; `None` for an unknown symbol.
    pub fn from_symbol(s: &str) -> (r: Option<Unit>)
        ensures
            r matches Some(u) ==> unit_symbol(u) == s@,
            r is None ==> forall|u: Unit| unit_symbol(u) != s@,
    {
        let s = s.to_owned();
        if s == String::from_str("") {
            Some(Unit::NoUnit)
        } else if s == String::from_str("°C") {
            Some(Unit::DegreeC)
        } else if s == String::from_str("%") {
            Some(Unit::Percent)
        } else if s == String::from_str("Pa") {
            Some(Unit::Pascal)
        } else if s == String::from_str("m3/h") {
            Some(Unit::CubicMetersPerHour)
        } else if s == String::from_str("V") {
            Some(Unit::Volt)
        } else if s == String::from_str("A") {
            Some(Unit::Ampere)
        } else if s == String::from_str("Sv/h") {
            Some(Unit::SievertPerHour)
        } else if s == String::from_str("rpm") {
            Some(Unit::RotationsPerMinute)
        } else if s == String::from_str("W") {
            Some(Unit::Watt)
        } else if s == String::from_str("m/s") {
            Some(Unit::Speed)
        } else {
            None
        }
    }

    /// The payload key for values of this unit.
    pub fn field_name(&self) -> (r: &'static str)
        ensures
            r@ == field_name_of(*self),
    {
        match self {
            Unit::NoUnit => "value",
            Unit::DegreeC => "degreeC",
            Unit::Percent => "percent",
            Unit::Pascal => "pascal",
            Unit::CubicMetersPerHour => "cubicMetersPerHour",
            Unit::Volt => "volt",
            Unit::Ampere => "ampere",
            Unit::SievertPerHour => "sievertPerHour",
            Unit::RotationsPerMinute => "rotationsPerMinute",
            Unit::Watt => "watt",
            Unit::Speed => "metersPerSecond",
        }
    }
}

/// A leaf of the hierarchy.
pub struct Tag {
    pub name: String,
    pub unit: Unit,
    pub tag_type: Type,
}

pub struct WorkCell {
    pub work_cell: String,
    pub tag_group: String,
    pub tags: Vec<Tag>,
}

pub struct ProductionLine {
    pub production_line: String,
    pub work_cells: Vec<WorkCell>,
}

pub struct Area {
    pub area: String,
    pub production_lines: Vec<ProductionLine>,
}

pub struct Site {
    pub site: String,
    pub areas: Vec<Area>,
}

/// The root of the hierarchy: one enterprise and its sites.
pub struct PowerplantElement {
    pub enterprise: String,
    pub sites: Vec<Site>,
}

impl Tag {
    pub fn new(name: String, unit: Unit, tag_type: Type) -> (r: Tag)
        ensures
            r.name == name,
            r.unit == unit,
            r.tag_type == tag_type,
    {
        Tag { name, unit, tag_type }
    }
}

impl WorkCell {
    pub fn new(work_cell: String, tag_group: String, tags: Vec<Tag>) -> (r: WorkCell)
        ensures
            r.work_cell == work_cell,
            r.tag_group == tag_group,
            r.tags == tags,
    {
        WorkCell { work_cell, tag_group, tags }
    }
}

impl ProductionLine {
    pub fn new(production_line: String, work_cells: Vec<WorkCell>) -> (r: ProductionLine)
        ensures
            r.production_line == production_line,
            r.work_cells == work_cells,
    {
        ProductionLine { production_line, work_cells }
    }
}

impl Area {
    pub fn new(area: String, production_lines: Vec<ProductionLine>) -> (r: Area)
        ensures
            r.area == area,
            r.production_lines == production_lines,
    {
        Area { area, production_lines }
    }
}

impl Site {
    pub fn new(site: String, areas: Vec<Area>) -> (r: Site)
        ensures
            r.site == site,
            r.areas == areas,
    {
        Site { site, areas }
    }
}

impl PowerplantElement {
    pub fn new(enterprise: String, sites: Vec<Site>) -> (r: PowerplantElement)
        ensures
            r.enterprise == enterprise,
            r.sites == sites,
    {
        PowerplantElement { enterprise, sites }
    }
}

} // verus!
