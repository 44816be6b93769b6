use esmart_mqtt::stats::{DeviceClass, Stat, Unit};

#[test]
fn stat_new_keeps_its_fields() {
    let s = Stat::new("Boiler", Unit::W, DeviceClass::Power, "mdi:fire", "power");
    assert_eq!(s.name(), "Boiler");
    assert_eq!(s.icon(), "mdi:fire");
    assert_eq!(s.property(), "power");
    assert_eq!(s.unit_str(), "W");
    assert_eq!(s.device_class_str(), "power");
}

#[test]
fn device_class_texts() {
    let text = |c| Stat::new("n", Unit::Unitless, c, "i", "p").device_class_str().to_string();
    assert_eq!(text(DeviceClass::Unclassified), "");
    assert_eq!(text(DeviceClass::Water), "water");
    assert_eq!(text(DeviceClass::Power), "power");
    assert_eq!(text(DeviceClass::Temperature), "temperature");
}

#[test]
fn unit_texts() {
    let text = |u| Stat::new("n", u, DeviceClass::Unclassified, "i", "p").unit_str().to_string();
    assert_eq!(text(Unit::Unitless), "");
    assert_eq!(text(Unit::C), "C");
    assert_eq!(text(Unit::Lmin), "L/min");
    assert_eq!(text(Unit::W), "W");
}

#[test]
fn stat_accepts_empty_strings() {
    let s = Stat::new("", Unit::C, DeviceClass::Temperature, "", "");
    assert_eq!(s.name(), "");
    assert_eq!(s.icon(), "");
    assert_eq!(s.property(), "");
}
