use vstd::prelude::*;

verus! {

/// The unit of measurement that Home Assistant shows next to a statistic.
#[derive(Clone, Copy, Debug, PartialEq, Eq, Structural)]
pub enum Unit {
    Unitless,
    C,
    Lmin,
    W,
}

/// The Home Assistant device class of a statistic.
#[derive(Clone, Copy, Debug, PartialEq, Eq, Structural)]
pub enum DeviceClass {
    Unclassified,
    Water,
    Power,
    Temperature,
}

/// The mathematical content of a [`Stat`].
pub struct StatModel {
    pub name: Seq<char>,
    pub unit: Unit,
    pub device_class: DeviceClass,
    pub icon: Seq<char>,
    pub property: Seq<char>,
}

/// A statistic published to Home Assistant: its display name, unit, device
/// class, icon and the JSON property that carries its value.
#[derive(Clone, Debug)]
pub struct Stat {
    name: String,
    unit: Unit,
    device_class: DeviceClass,
    icon: String,
    property: String,
}

impl View for Stat {
    type V = StatModel;

    closed spec fn view(&self) -> StatModel {
        StatModel {
            name: self.name@,
            unit: self.unit,
            device_class: self.device_class,
            icon: self.icon@,
            property: self.property@,
        }
    }
}

/// The text that Home Assistant receives for a device class.
pub open spec fn device_class_text(class: DeviceClass) -> Seq<char> {
    match class {
        DeviceClass::Unclassified => ""@,
        DeviceClass::Water => "water"@,
        DeviceClass::Power => "power"@,
        DeviceClass::Temperature => "temperature"@,
    }
}

/// The text that Home Assistant receives for a unit of measurement.
pub open spec fn unit_text(unit: Unit) -> Seq<char> {
    match unit {
        Unit::Unitless => ""@,
        Unit::C => "C"@,
        Unit::Lmin => "L/min"@,
        Unit::W => "W"@,
    }
}

/// The texts Home Assistant receives: no device class and no unit are empty,
/// the others are the lower-case class names and the usual unit symbols.
pub proof fn law_texts()
    ensures
        device_class_text(DeviceClass::Unclassified) == ""@,
        device_class_text(DeviceClass::Water) == "water"@,
        device_class_text(DeviceClass::Power) == "power"@,
        device_class_text(DeviceClass::Temperature) == "temperature"@,
        unit_text(Unit::Unitless) == ""@,
        unit_text(Unit::C) == "C"@,
        unit_text(Unit::Lmin) == "L/min"@,
        unit_text(Unit::W) == "W"@,
{
}

impl Stat {
    pub fn new(name: &str, unit: Unit, device_class: DeviceClass, icon: &str, property: &str) -> (s:
        Self)
        ensures
            s@ == (StatModel {
                name: name@,
                unit: unit,
                device_class: device_class,
                icon: icon@,
                property: property@,
            }),
    {
        Stat {
            name: String::from_str(name),
            unit,
            device_class,
            icon: String::from_str(icon),
            property: String::from_str(property),
        }
    }

    pub fn name(&self) -> (r: &str)
        ensures
            r@ == self@.name,
    {
        self.name.as_str()
    }

    pub fn icon(&self) -> (r: &str)
        ensures
            r@ == self@.icon,
    {
        self.icon.as_str()
    }

    pub fn property(&self) -> (r: &str)
        ensures
            r@ == self@.property,
    {
        self.property.as_str()
    }

    pub fn device_class_str(&self) -> (r: &str)
        ensures
            r@ == device_class_text(self@.device_class),
    {
        match self.device_class {
            DeviceClass::Unclassified => "",
            DeviceClass::Water => "water",
            DeviceClass::Power => "power",
            DeviceClass::Temperature => "temperature",
        }
    }

    pub fn unit_str(&self) -> (r: &str)
        ensures
            r@ == unit_text(self@.unit),
    {
        match self.unit {
            Unit::Unitless => "",
            Unit::C => "C",
            Unit::Lmin => "L/min",
            Unit::W => "W",
        }
    }
}

/// Something that stands for a list of statistics, each with the identifier
/// it is published under and its current reading.
pub trait IterStats<I> {
    fn into_stats_iter(self) -> I;
}

} // verus!
