use esmart_mqtt::mqtt::{discovery, mqtt_credentials, update_topic, CredentialsError};
use esmart_mqtt::stats::{DeviceClass, Stat, Unit};

#[test]
fn update_topic_of_a_statistic() {
    assert_eq!(update_topic("flow_4"), "esmart/flow_4/state");
}

#[test]
fn discovery_document_fields() {
    let stat = Stat::new("Room 3 Temperature", Unit::C, DeviceClass::Temperature, "mdi:thermometer", "temperature");
    let d = discovery("room_temperature_3", &stat);
    assert_eq!(d.config_topic, "homeassistant/sensor/esmart/room_temperature_3/config");
    assert_eq!(d.name, "Room 3 Temperature (temperature)");
    assert_eq!(d.state_topic, "esmart/room_temperature_3/state");
    assert_eq!(d.device_class, "temperature");
    assert_eq!(d.icon, "mdi:thermometer");
    assert_eq!(d.value_template, "{{ value_json.temperature }}");
    assert_eq!(d.unit_of_measurement, "C");
    assert_eq!(d.unique_id, "esmart_room_temperature_3");
    assert_eq!(d.model, "eSmarter Client");
}

#[test]
fn discovery_of_unitless_statistic() {
    let stat = Stat::new("Valve 1 On", Unit::Unitless, DeviceClass::Unclassified, "mdi:valve", "onoff");
    let d = discovery("valve_on_1", &stat);
    assert_eq!(d.device_class, "");
    assert_eq!(d.unit_of_measurement, "");
    assert_eq!(d.value_template, "{{ value_json.onoff }}");
}

#[test]
fn credentials_cases() {
    assert_eq!(mqtt_credentials(None, None), Ok(None));
    assert_eq!(mqtt_credentials(None, Some("pw")), Ok(None));
    assert_eq!(mqtt_credentials(Some("me"), Some("pw")), Ok(Some(("me", "pw"))));
    assert_eq!(mqtt_credentials(Some("me"), None), Err(CredentialsError::MissingPassword));
}

#[test]
fn discovery_state_topic_is_the_update_topic() {
    let stat = Stat::new("Grid", Unit::W, DeviceClass::Power, "mdi:lightning-bolt", "power");
    let d = discovery("power_9", &stat);
    assert_eq!(d.state_topic, update_topic("power_9"));
    assert!(d.value_template.contains(stat.property()));
}
