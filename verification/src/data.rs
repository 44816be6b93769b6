use vstd::prelude::*;

use crate::stats::{DeviceClass, IterStats, Stat, StatModel, Unit};
use crate::text::{around_decimal, decimal, prefixed_decimal};

verus! {

/// A switch state as eSmart reports it (`"on"` / `"off"`).
#[derive(Clone, Copy, Debug, PartialEq, Eq, Structural)]
pub enum OnOff {
    On,
    Off,
}

impl<'a> From<&'a OnOff> for bool {
    fn from(value: &'a OnOff) -> (b: bool) {
        match value {
            OnOff::On => true,
            OnOff::Off => false,
        }
    }
}

impl<'a> vstd::std_specs::convert::FromSpecImpl<&'a OnOff> for bool {
    open spec fn obeys_from_spec() -> bool {
        true
    }

    open spec fn from_spec(value: &'a OnOff) -> bool {
        *value == OnOff::On
    }
}

/// The holiday mode block of an eSmart message.
#[derive(Clone, Debug)]
pub struct HolidayMode {
    pub onoff: OnOff,
}

/// A meter of the eSmart installation. Readings are `f32` values, held here
/// as their IEEE-754 bit patterns (what `f32::to_bits` gives).
#[derive(Clone, Debug)]
pub enum Meter {
    Flow { id: u16, name: String, flow_rate: u32 },
    Power { id: u16, name: String, power: u32 },
    Temperature { id: u16, temperature: u32 },
}

/// The state of a heating valve; `power` is the bit pattern of an `f32`.
#[derive(Clone, Debug)]
pub struct ValveData {
    pub onoff: OnOff,
    pub power: u32,
}

/// The state of a room; the numeric fields are bit patterns of `f32` values.
#[derive(Clone, Debug)]
pub struct RoomData {
    pub device_on_off: OnOff,
    pub power: u32,
    pub setpoint: u32,
    pub temperature: u32,
}

/// A node of the eSmart installation: a room or a valve.
#[derive(Clone, Debug)]
pub enum Node {
    Room { id: u16, data: RoomData },
    Valve { id: u16, data: ValveData },
}

/// The body of an eSmart message.
#[derive(Clone, Debug)]
pub struct Body {
    pub holiday_mode: HolidayMode,
    pub modbus_on_error: String,
    pub meters: Vec<Meter>,
    pub nodes: Vec<Node>,
}

/// The headers of an eSmart message; `timestamp` is in seconds since the
/// Unix epoch, UTC.
#[derive(Clone, Debug)]
pub struct Headers {
    pub from: String,
    pub method: String,
    pub size: usize,
    pub timestamp: i64,
    pub to: String,
    pub _type: String,
    pub version: String,
}

/// The format of the timestamp in the headers of an eSmart message, such as
/// `2024-03-01 12:00:00+0100`.
pub const TIMESTAMP_FORMAT: &'static str = "%Y-%m-%d %H:%M:%S%z";

/// What `chrono::DateTime::parse_from_str(s, fmt)` gives, taken to seconds
/// since the Unix epoch (`DateTime::timestamp`); `None` where it fails.
pub uninterp spec fn parsed_timestamp(s: Seq<char>, fmt: Seq<char>) -> Option<int>;

/// Calls `chrono::DateTime::parse_from_str` and takes the instant it parses
/// to seconds since the Unix epoch with `DateTime::timestamp`. The contract
/// names the result, which depends on the two strings alone; it states
/// nothing of when parsing succeeds (chrono's strftime grammar).
#[verifier::external_body]
fn chrono_parse_from_str(s: &str, fmt: &str) -> (r: Option<i64>)
    ensures
        r matches Some(t) ==> parsed_timestamp(s@, fmt@) == Some(t as int),
        r is None ==> parsed_timestamp(s@, fmt@) is None,
{
    match chrono::DateTime::parse_from_str(s, fmt) {
        Ok(d) => Some(d.timestamp()),
        Err(_) => None,
    }
}

/// Reads the timestamp of an eSmart message header (see [`TIMESTAMP_FORMAT`]),
/// in seconds since the Unix epoch; `None` when the text does not match.
pub fn parse_timestamp(text: &str) -> (r: Option<i64>)
    ensures
        r matches Some(t) ==> parsed_timestamp(text@, TIMESTAMP_FORMAT@) == Some(t as int),
        r is None ==> parsed_timestamp(text@, TIMESTAMP_FORMAT@) is None,
{
    chrono_parse_from_str(text, TIMESTAMP_FORMAT)
}

/// A status message that the eSmart box posts to its XMPP room.
#[derive(Clone, Debug)]
pub struct ESmartMessage {
    pub headers: Headers,
    pub body: Body,
}

/// A published statistic: identifier, description, reading (bit pattern).
pub type StatEntry = (String, Stat, u32);

/// The mathematical content of a [`StatEntry`].
pub type StatEntryModel = (Seq<char>, StatModel, u32);

pub open spec fn entry_view(e: StatEntry) -> StatEntryModel {
    (e.0@, e.1@, e.2)
}

pub open spec fn entries_view(v: Seq<StatEntry>) -> Seq<StatEntryModel> {
    v.map_values(|e: StatEntry| entry_view(e))
}

/// The bit pattern of `1.0f32` when `on`, of `0.0f32` otherwise.
pub open spec fn switch_reading(on: bool) -> u32 {
    if on {
        0x3f80_0000u32
    } else {
        0u32
    }
}

pub open spec fn stat_model(
    name: Seq<char>,
    unit: Unit,
    device_class: DeviceClass,
    icon: Seq<char>,
    property: Seq<char>,
) -> StatModel {
    StatModel { name, unit, device_class, icon, property }
}

/// The reading that a meter reports.
pub open spec fn meter_reading(m: Meter) -> u32 {
    match m {
        Meter::Flow { flow_rate, .. } => flow_rate,
        Meter::Power { power, .. } => power,
        Meter::Temperature { temperature, .. } => temperature,
    }
}

/// The statistics that a meter stands for.
pub open spec fn meter_stats(m: Meter) -> Seq<StatEntryModel> {
    match m {
        Meter::Flow { id, name, flow_rate } => seq![
            (
                "flow_"@ + decimal(id as nat),
                stat_model(name@, Unit::Lmin, DeviceClass::Water, "mdi:pipe"@, "flow_rate"@),
                flow_rate,
            ),
        ],
        Meter::Power { id, name, power } => seq![
            (
                "power_"@ + decimal(id as nat),
                stat_model(
                    name@,
                    Unit::W,
                    DeviceClass::Power,
                    "mdi:lightning-bolt"@,
                    "power"@,
                ),
                power,
            ),
        ],
        Meter::Temperature { id, temperature } => seq![
            (
                "temperature_"@ + decimal(id as nat),
                stat_model(
                    "General Temperature"@,
                    Unit::C,
                    DeviceClass::Temperature,
                    "mdi:thermometer"@,
                    "temperature"@,
                ),
                temperature,
            ),
        ],
    }
}

/// The statistics that a node stands for.
pub open spec fn node_stats(n: Node) -> Seq<StatEntryModel> {
    match n {
        Node::Room { id, data } => {
            let d = decimal(id as nat);
            seq![
                (
                    "room_temperature_"@ + d,
                    stat_model(
                        "Room "@ + d + " Temperature"@,
                        Unit::C,
                        DeviceClass::Temperature,
                        "mdi:thermometer"@,
                        "temperature"@,
                    ),
                    data.temperature,
                ),
                (
                    "room_heating_on_"@ + d,
                    stat_model(
                        "Room "@ + d + " Heating On"@,
                        Unit::Unitless,
                        DeviceClass::Unclassified,
                        "mdi:switch"@,
                        "deviceOnOff"@,
                    ),
                    switch_reading(data.device_on_off == OnOff::On),
                ),
                (
                    "room_heating_power_"@ + d,
                    stat_model(
                        "Room "@ + d + " Heating Power"@,
                        Unit::Unitless,
                        DeviceClass::Temperature,
                        "mdi:thermometer"@,
                        "power"@,
                    ),
                    data.power,
                ),
            ]
        },
        Node::Valve { id, data } => {
            let d = decimal(id as nat);
            seq![
                (
                    "valve_power_"@ + d,
                    stat_model(
                        "Valve "@ + d + " Power"@,
                        Unit::Unitless,
                        DeviceClass::Unclassified,
                        "mdi:valve"@,
                        "power"@,
                    ),
                    data.power,
                ),
                (
                    "valve_on_"@ + d,
                    stat_model(
                        "Valve "@ + d + " On"@,
                        Unit::Unitless,
                        DeviceClass::Unclassified,
                        "mdi:valve"@,
                        "onoff"@,
                    ),
                    switch_reading(data.onoff == OnOff::On),
                ),
            ]
        },
    }
}

fn switch_bits(state: &OnOff) -> (r: u32)
    ensures
        r == switch_reading(*state == OnOff::On),
{
    if bool::from(state) {
        0x3f80_0000u32
    } else {
        0u32
    }
}

impl Meter {
    /// The reading of the meter: its flow rate, power or temperature.
    pub fn reading(&self) -> (r: u32)
        ensures
            r == meter_reading(*self),
    {
        match self {
            Meter::Flow { flow_rate, .. } => *flow_rate,
            Meter::Power { power, .. } => *power,
            Meter::Temperature { temperature, .. } => *temperature,
        }
    }
}

impl<'a> IterStats<Vec<StatEntry>> for &'a Meter {
    fn into_stats_iter(self) -> (r: Vec<StatEntry>)
        ensures
            entries_view(r@) == meter_stats(*self),
    {
        let entry = match self {
            Meter::Flow { id, name, flow_rate } => (
                prefixed_decimal("flow_", *id),
                Stat::new(name.as_str(), Unit::Lmin, DeviceClass::Water, "mdi:pipe", "flow_rate"),
                *flow_rate,
            ),
            Meter::Power { id, name, power } => (
                prefixed_decimal("power_", *id),
                Stat::new(
                    name.as_str(),
                    Unit::W,
                    DeviceClass::Power,
                    "mdi:lightning-bolt",
                    "power",
                ),
                *power,
            ),
            Meter::Temperature { id, temperature } => (
                prefixed_decimal("temperature_", *id),
                Stat::new(
                    "General Temperature",
                    Unit::C,
                    DeviceClass::Temperature,
                    "mdi:thermometer",
                    "temperature",
                ),
                *temperature,
            ),
        };
        let mut r: Vec<StatEntry> = Vec::new();
        r.push(entry);
        assert(entries_view(r@) =~= meter_stats(*self));
        r
    }
}

impl<'a> IterStats<Vec<StatEntry>> for &'a Node {
    fn into_stats_iter(self) -> (r: Vec<StatEntry>)
        ensures
            entries_view(r@) == node_stats(*self),
    {
        let mut r: Vec<StatEntry> = Vec::new();
        match self {
            Node::Room { id, data } => {
                
                r.push(
                    (
                        prefixed_decimal("room_temperature_", *id),
                        Stat::new(
                            around_decimal("Room ", *id, " Temperature").as_str(),
                            Unit::C,
                            DeviceClass::Temperature,
                            "mdi:thermometer",
                            "temperature",
                        ),
                        data.temperature,
                    ),
                );
                r.push(
                    (
                        prefixed_decimal("room_heating_on_", *id),
                        Stat::new(
                            around_decimal("Room ", *id, " Heating On").as_str(),
                            Unit::Unitless,
                            DeviceClass::Unclassified,
                            "mdi:switch",
                            "deviceOnOff",
                        ),
                        switch_bits(&data.device_on_off),
                    ),
                );
                r.push(
                    (
                        prefixed_decimal("room_heating_power_", *id),
                        Stat::new(
                            around_decimal("Room ", *id, " Heating Power").as_str(),
                            Unit::Unitless,
                            DeviceClass::Temperature,
                            "mdi:thermometer",
                            "power",
                        ),
                        data.power,
                    ),
                );
            },
            Node::Valve { id, data } => {
                r.push(
                    (
                        prefixed_decimal("valve_power_", *id),
                        Stat::new(
                            around_decimal("Valve ", *id, " Power").as_str(),
                            Unit::Unitless,
                            DeviceClass::Unclassified,
                            "mdi:valve",
                            "power",
                        ),
                        data.power,
                    ),
                );
                r.push(
                    (
                        prefixed_decimal("valve_on_", *id),
                        Stat::new(
                            around_decimal("Valve ", *id, " On").as_str(),
                            Unit::Unitless,
                            DeviceClass::Unclassified,
                            "mdi:valve",
                            "onoff",
                        ),
                        switch_bits(&data.onoff),
                    ),
                );
            },
        }
        assert(entries_view(r@) =~= node_stats(*self));
        r
    }
}

/// The statistics of a list of meters, in order.
pub open spec fn meters_stats(ms: Seq<Meter>) -> Seq<StatEntryModel>
    decreases ms.len(),
{
    if ms.len() == 0 {
        seq![]
    } else {
        meters_stats(ms.drop_last()) + meter_stats(ms.last())
    }
}

/// The statistics of a list of nodes, in order.
pub open spec fn nodes_stats(ns: Seq<Node>) -> Seq<StatEntryModel>
    decreases ns.len(),
{
    if ns.len() == 0 {
        seq![]
    } else {
        nodes_stats(ns.drop_last()) + node_stats(ns.last())
    }
}

/// Everything a message reports: the statistics of its meters, then those of
/// its nodes.
pub open spec fn message_stats(msg: ESmartMessage) -> Seq<StatEntryModel> {
    meters_stats(msg.body.meters@) + nodes_stats(msg.body.nodes@)
}

/// A meter is published as exactly one statistic, whose value is the reading
/// that the meter converts to.
pub proof fn law_meter_reading_published(m: Meter)
    ensures
        meter_stats(m).len() == 1,
        meter_stats(m)[0].2 == meter_reading(m),
{
}

/// The switch statistic of a room or a valve reads `1.0` exactly when its
/// switch state converts to `true`, and `0.0` otherwise.
pub proof fn law_switch_follows_on_off(n: Node)
    ensures
        node_stats(n)[1].2 == switch_reading(
            <bool as vstd::std_specs::convert::FromSpec<&OnOff>>::from_spec(
                &match n {
                    Node::Room { data, .. } => data.device_on_off,
                    Node::Valve { data, .. } => data.onoff,
                },
            ),
        ),
{
}

/// A meter is published as exactly one statistic. Flow and power meters keep
/// their own name; every temperature meter, whatever its id, is the
/// "General Temperature" in degrees Celsius. The identifier is the meter's kind
/// followed by its id in decimal, and the value is the meter's own reading.
pub proof fn law_meter_statistic(m: Meter)
    ensures
        meter_stats(m).len() == 1,
        match m {
            Meter::Flow { id, name, flow_rate } => meter_stats(m)[0] == (
                "flow_"@ + decimal(id as nat),
                StatModel {
                    name: name@,
                    unit: Unit::Lmin,
                    device_class: DeviceClass::Water,
                    icon: "mdi:pipe"@,
                    property: "flow_rate"@,
                },
                flow_rate,
            ),
            Meter::Power { id, name, power } => meter_stats(m)[0] == (
                "power_"@ + decimal(id as nat),
                StatModel {
                    name: name@,
                    unit: Unit::W,
                    device_class: DeviceClass::Power,
                    icon: "mdi:lightning-bolt"@,
                    property: "power"@,
                },
                power,
            ),
            Meter::Temperature { id, temperature } => meter_stats(m)[0] == (
                "temperature_"@ + decimal(id as nat),
                StatModel {
                    name: "General Temperature"@,
                    unit: Unit::C,
                    device_class: DeviceClass::Temperature,
                    icon: "mdi:thermometer"@,
                    property: "temperature"@,
                },
                temperature,
            ),
        },
{
}

/// A room publishes exactly three statistics, in this order: its measured
/// temperature (not its setpoint, whatever the heating does), whether its
/// heating is on (`1.0` or `0.0`, as the bit patterns `0x3f80_0000` and `0`),
/// and its heating power.
pub proof fn law_room_statistics(id: u16, data: RoomData)
    ensures
        node_stats(Node::Room { id, data }).len() == 3,
        node_stats(Node::Room { id, data })[0] == (
            "room_temperature_"@ + decimal(id as nat),
            StatModel {
                name: "Room "@ + decimal(id as nat) + " Temperature"@,
                unit: Unit::C,
                device_class: DeviceClass::Temperature,
                icon: "mdi:thermometer"@,
                property: "temperature"@,
            },
            data.temperature,
        ),
        node_stats(Node::Room { id, data })[1] == (
            "room_heating_on_"@ + decimal(id as nat),
            StatModel {
                name: "Room "@ + decimal(id as nat) + " Heating On"@,
                unit: Unit::Unitless,
                device_class: DeviceClass::Unclassified,
                icon: "mdi:switch"@,
                property: "deviceOnOff"@,
            },
            if data.device_on_off == OnOff::On {
                0x3f80_0000u32
            } else {
                0u32
            },
        ),
        node_stats(Node::Room { id, data })[2] == (
            "room_heating_power_"@ + decimal(id as nat),
            StatModel {
                name: "Room "@ + decimal(id as nat) + " Heating Power"@,
                unit: Unit::Unitless,
                device_class: DeviceClass::Temperature,
                icon: "mdi:thermometer"@,
                property: "power"@,
            },
            data.power,
        ),
{
}

/// A valve publishes exactly two statistics, in this order: its power, and
/// whether it is on (`1.0` or `0.0`, as bit patterns).
pub proof fn law_valve_statistics(id: u16, data: ValveData)
    ensures
        node_stats(Node::Valve { id, data }).len() == 2,
        node_stats(Node::Valve { id, data })[0] == (
            "valve_power_"@ + decimal(id as nat),
            StatModel {
                name: "Valve "@ + decimal(id as nat) + " Power"@,
                unit: Unit::Unitless,
                device_class: DeviceClass::Unclassified,
                icon: "mdi:valve"@,
                property: "power"@,
            },
            data.power,
        ),
        node_stats(Node::Valve { id, data })[1] == (
            "valve_on_"@ + decimal(id as nat),
            StatModel {
                name: "Valve "@ + decimal(id as nat) + " On"@,
                unit: Unit::Unitless,
                device_class: DeviceClass::Unclassified,
                icon: "mdi:valve"@,
                property: "onoff"@,
            },
            if data.onoff == OnOff::On {
                0x3f80_0000u32
            } else {
                0u32
            },
        ),
{
}

/// The statistics of a list of meters are those of each meter, in the order
/// of the list: those of a concatenation are those of the first part followed
/// by those of the second, and a single meter gives its own.
pub proof fn law_meters_in_order(a: Seq<Meter>, b: Seq<Meter>, m: Meter)
    ensures
        meters_stats(a + b) == meters_stats(a) + meters_stats(b),
        meters_stats(seq![m]) == meter_stats(m),
    decreases b.len(),
{
    assert(seq![m].drop_last() =~= Seq::<Meter>::empty());
    assert(meters_stats(seq![m].drop_last()) == Seq::<StatEntryModel>::empty());
    assert(Seq::<StatEntryModel>::empty() + meter_stats(m) =~= meter_stats(m));
    if b.len() == 0 {
        assert(a + b =~= a);
        assert(meters_stats(a) + meters_stats(b) =~= meters_stats(a));
    } else {
        law_meters_in_order(a, b.drop_last(), m);
        assert((a + b).drop_last() =~= a + b.drop_last());
        assert((a + b).last() == b.last());
        assert(meters_stats(a + b) =~= meters_stats(a) + meters_stats(b));
    }
}

/// The statistics of a list of nodes are those of each node, in the order of
/// the list, as for meters.
pub proof fn law_nodes_in_order(a: Seq<Node>, b: Seq<Node>, n: Node)
    ensures
        nodes_stats(a + b) == nodes_stats(a) + nodes_stats(b),
        nodes_stats(seq![n]) == node_stats(n),
    decreases b.len(),
{
    assert(seq![n].drop_last() =~= Seq::<Node>::empty());
    assert(nodes_stats(seq![n].drop_last()) == Seq::<StatEntryModel>::empty());
    assert(Seq::<StatEntryModel>::empty() + node_stats(n) =~= node_stats(n));
    if b.len() == 0 {
        assert(a + b =~= a);
        assert(nodes_stats(a) + nodes_stats(b) =~= nodes_stats(a));
    } else {
        law_nodes_in_order(a, b.drop_last(), n);
        assert((a + b).drop_last() =~= a + b.drop_last());
        assert((a + b).last() == b.last());
        assert(nodes_stats(a + b) =~= nodes_stats(a) + nodes_stats(b));
    }
}

/// A message publishes every statistic of its meters first, then every
/// statistic of its nodes.
pub proof fn law_message_meters_then_nodes(msg: ESmartMessage)
    ensures
        message_stats(msg) == meters_stats(msg.body.meters@) + nodes_stats(msg.body.nodes@),
{
}

proof fn lemma_entries_view_append(a: Seq<StatEntry>, b: Seq<StatEntry>)
    ensures
        entries_view(a + b) == entries_view(a) + entries_view(b),
{
    assert(entries_view(a + b) =~= entries_view(a) + entries_view(b));
}

impl ESmartMessage {
    /// The meters of the message, in the order it lists them.
    pub fn iter_meters(&self) -> (r: &[Meter])
        ensures
            r@ == self.body.meters@,
    {
        self.body.meters.as_slice()
    }

    /// The nodes of the message, in the order it lists them.
    pub fn iter_nodes(&self) -> (r: &[Node])
        ensures
            r@ == self.body.nodes@,
    {
        self.body.nodes.as_slice()
    }

    /// The statistics to publish for this message: for each meter in order
    /// its statistics, then for each node in order its statistics.
    pub fn stats(&self) -> (r: Vec<StatEntry>)
        ensures
            entries_view(r@) == message_stats(*self),
    {
        let meters = self.iter_meters();
        let nodes = self.iter_nodes();
        let mut out: Vec<StatEntry> = Vec::new();
        let mut i: usize = 0;
        while i < meters.len()
            invariant
                i <= meters@.len(),
                meters@ == self.body.meters@,
                entries_view(out@) == meters_stats(meters@.take(i as int)),
            decreases meters@.len() - i,
        {
            let mut more = IterStats::into_stats_iter(&meters[i]);
            proof {
                lemma_entries_view_append(out@, more@);
                assert(meters@.take(i + 1).drop_last() =~= meters@.take(i as int));
            }
            out.append(&mut more);
            i = i + 1;
        }
        assert(meters@.take(meters@.len() as int) =~= meters@);
        let mut j: usize = 0;
        while j < nodes.len()
            invariant
                j <= nodes@.len(),
                nodes@ == self.body.nodes@,
                entries_view(out@) == meters_stats(self.body.meters@) + nodes_stats(
                    nodes@.take(j as int),
                ),
            decreases nodes@.len() - j,
        {
            let mut more = IterStats::into_stats_iter(&nodes[j]);
            proof {
                lemma_entries_view_append(out@, more@);
                assert(nodes@.take(j + 1).drop_last() =~= nodes@.take(j as int));
            }
            out.append(&mut more);
            j = j + 1;
        }
        assert(nodes@.take(nodes@.len() as int) =~= nodes@);
        out
    }
}

} // verus!
