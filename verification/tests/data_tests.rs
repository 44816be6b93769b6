use esmart_mqtt::data::{
    parse_timestamp, Body, ESmartMessage, Headers, HolidayMode, Meter, Node, OnOff, RoomData,
    StatEntry, ValveData,
};
use esmart_mqtt::stats::IterStats;

fn bits(x: f32) -> u32 {
    x.to_bits()
}

fn check(e: &StatEntry, id: &str, name: &str, unit: &str, class: &str, icon: &str, prop: &str, v: f32) {
    assert_eq!(e.0, id);
    assert_eq!(e.1.name(), name);
    assert_eq!(e.1.unit_str(), unit);
    assert_eq!(e.1.device_class_str(), class);
    assert_eq!(e.1.icon(), icon);
    assert_eq!(e.1.property(), prop);
    assert_eq!(f32::from_bits(e.2), v);
}

#[test]
fn on_off_into_bool() {
    assert!(bool::from(&OnOff::On));
    assert!(!bool::from(&OnOff::Off));
}

#[test]
fn meter_reading_is_its_value() {
    let m = Meter::Flow { id: 1, name: "Water".to_string(), flow_rate: bits(3.5) };
    assert_eq!(f32::from_bits(m.reading()), 3.5);
    let m = Meter::Power { id: 2, name: "Grid".to_string(), power: bits(-12.25) };
    assert_eq!(f32::from_bits(m.reading()), -12.25);
    let m = Meter::Temperature { id: 3, temperature: bits(21.0) };
    assert_eq!(f32::from_bits(m.reading()), 21.0);
}

#[test]
fn flow_meter_stats() {
    let m = Meter::Flow { id: 4, name: "Hot water".to_string(), flow_rate: bits(2.5) };
    let v = (&m).into_stats_iter();
    assert_eq!(v.len(), 1);
    check(&v[0], "flow_4", "Hot water", "L/min", "water", "mdi:pipe", "flow_rate", 2.5);
}

#[test]
fn power_meter_stats() {
    let m = Meter::Power { id: 17, name: "Heat pump".to_string(), power: bits(1200.0) };
    let v = (&m).into_stats_iter();
    assert_eq!(v.len(), 1);
    check(&v[0], "power_17", "Heat pump", "W", "power", "mdi:lightning-bolt", "power", 1200.0);
}

#[test]
fn temperature_meter_stats() {
    let m = Meter::Temperature { id: 0, temperature: bits(-3.0) };
    let v = (&m).into_stats_iter();
    assert_eq!(v.len(), 1);
    check(&v[0], "temperature_0", "General Temperature", "C", "temperature", "mdi:thermometer", "temperature", -3.0);
}

fn room(id: u16, on: OnOff) -> Node {
    Node::Room {
        id,
        data: RoomData {
            device_on_off: on,
            power: bits(40.0),
            setpoint: bits(21.0),
            temperature: bits(20.5),
        },
    }
}

#[test]
fn room_stats() {
    let v = (&room(3, OnOff::On)).into_stats_iter();
    assert_eq!(v.len(), 3);
    check(&v[0], "room_temperature_3", "Room 3 Temperature", "C", "temperature", "mdi:thermometer", "temperature", 20.5);
    check(&v[1], "room_heating_on_3", "Room 3 Heating On", "", "", "mdi:switch", "deviceOnOff", 1.0);
    check(&v[2], "room_heating_power_3", "Room 3 Heating Power", "", "temperature", "mdi:thermometer", "power", 40.0);
    let v = (&room(3, OnOff::Off)).into_stats_iter();
    assert_eq!(f32::from_bits(v[1].2), 0.0);
}

#[test]
fn valve_stats() {
    let n = Node::Valve { id: 250, data: ValveData { onoff: OnOff::Off, power: bits(0.75) } };
    let v = (&n).into_stats_iter();
    assert_eq!(v.len(), 2);
    check(&v[0], "valve_power_250", "Valve 250 Power", "", "", "mdi:valve", "power", 0.75);
    check(&v[1], "valve_on_250", "Valve 250 On", "", "", "mdi:valve", "onoff", 0.0);
    let n = Node::Valve { id: 1, data: ValveData { onoff: OnOff::On, power: bits(1.0) } };
    assert_eq!(f32::from_bits((&n).into_stats_iter()[1].2), 1.0);
}

fn message(meters: Vec<Meter>, nodes: Vec<Node>) -> ESmartMessage {
    ESmartMessage {
        headers: Headers {
            from: "esmart".to_string(),
            method: "PUT".to_string(),
            size: 1,
            timestamp: 0,
            to: "app".to_string(),
            _type: "status".to_string(),
            version: "1".to_string(),
        },
        body: Body {
            holiday_mode: HolidayMode { onoff: OnOff::Off },
            modbus_on_error: String::new(),
            meters,
            nodes,
        },
    }
}

#[test]
fn message_stats_meters_then_nodes() {
    let msg = message(
        vec![
            Meter::Temperature { id: 1, temperature: bits(5.0) },
            Meter::Power { id: 2, name: "P".to_string(), power: bits(9.0) },
        ],
        vec![
            Node::Valve { id: 7, data: ValveData { onoff: OnOff::On, power: bits(2.0) } },
            room(8, OnOff::Off),
        ],
    );
    assert_eq!(msg.iter_meters().len(), 2);
    assert_eq!(msg.iter_nodes().len(), 2);
    let ids: Vec<String> = msg.stats().into_iter().map(|e| e.0).collect();
    assert_eq!(
        ids,
        vec![
            "temperature_1",
            "power_2",
            "valve_power_7",
            "valve_on_7",
            "room_temperature_8",
            "room_heating_on_8",
            "room_heating_power_8",
        ]
    );
}

#[test]
fn empty_message_has_no_stats() {
    assert!(message(vec![], vec![]).stats().is_empty());
}

#[test]
fn header_timestamp_parses() {
    assert_eq!(parse_timestamp("2024-03-01 12:00:00+0100"), Some(1709290800));
    assert_eq!(parse_timestamp("1970-01-01 00:00:00+0000"), Some(0));
    assert_eq!(parse_timestamp("2024-03-01T12:00:00Z"), None);
    assert_eq!(parse_timestamp(""), None);
}

#[test]
fn identifiers_of_distinct_entities_are_unique() {
    let msg = message(
        vec![
            Meter::Flow { id: 1, name: "F".to_string(), flow_rate: bits(1.0) },
            Meter::Power { id: 1, name: "P".to_string(), power: bits(1.0) },
            Meter::Temperature { id: 1, temperature: bits(1.0) },
            Meter::Flow { id: 11, name: "G".to_string(), flow_rate: bits(1.0) },
        ],
        vec![
            room(1, OnOff::On),
            room(11, OnOff::Off),
            Node::Valve { id: 1, data: ValveData { onoff: OnOff::On, power: bits(2.0) } },
        ],
    );
    let ids: Vec<String> = msg.stats().into_iter().map(|e| e.0).collect();
    assert_eq!(ids.len(), 4 + 3 + 3 + 2);
    for i in 0..ids.len() {
        for j in i + 1..ids.len() {
            assert_ne!(ids[i], ids[j]);
        }
    }
}

#[test]
fn meter_reading_is_the_published_value() {
    for m in [
        Meter::Flow { id: 2, name: "F".to_string(), flow_rate: bits(0.5) },
        Meter::Power { id: 3, name: "P".to_string(), power: bits(7.0) },
        Meter::Temperature { id: 4, temperature: bits(19.5) },
    ] {
        let v = (&m).into_stats_iter();
        assert_eq!(v.len(), 1);
        assert_eq!(v[0].2, m.reading());
    }
}
