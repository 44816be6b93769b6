use vstd::prelude::*;

use crate::stats::Stat;
use crate::text::join3;

verus! {

/// The MQTT topic that carries the state of statistic `id`.
pub open spec fn state_topic_text(id: Seq<char>) -> Seq<char> {
    "esmart/"@ + id + "/state"@
}

/// The MQTT topic of the Home Assistant discovery document of statistic `id`.
pub open spec fn config_topic_text(id: Seq<char>) -> Seq<char> {
    "homeassistant/sensor/esmart/"@ + id + "/config"@
}

/// The name shown in Home Assistant: the statistic's name, then its property
/// in parentheses.
pub open spec fn display_name_text(name: Seq<char>, property: Seq<char>) -> Seq<char> {
    name + " ("@ + property + ")"@
}

/// The Home Assistant template that picks `property` out of a state payload.
pub open spec fn value_template_text(property: Seq<char>) -> Seq<char> {
    "{{ value_json."@ + property + " }}"@
}

/// The unique identifier of statistic `id` in Home Assistant, which is also
/// the identifier of its device.
pub open spec fn unique_id_text(id: Seq<char>) -> Seq<char> {
    "esmart_"@ + id
}

/// The fields of a Home Assistant discovery document for one statistic,
/// and the topic it is published on. The device's name is `name` and its only
/// identifier is `unique_id`.
pub struct Discovery {
    pub config_topic: String,
    pub name: String,
    pub state_topic: String,
    pub device_class: String,
    pub icon: String,
    pub value_template: String,
    pub unit_of_measurement: String,
    pub unique_id: String,
    pub model: String,
}

/// The mathematical content of a [`Discovery`].
pub struct DiscoveryModel {
    pub config_topic: Seq<char>,
    pub name: Seq<char>,
    pub state_topic: Seq<char>,
    pub device_class: Seq<char>,
    pub icon: Seq<char>,
    pub value_template: Seq<char>,
    pub unit_of_measurement: Seq<char>,
    pub unique_id: Seq<char>,
    pub model: Seq<char>,
}

impl View for Discovery {
    type V = DiscoveryModel;

    open spec fn view(&self) -> DiscoveryModel {
        DiscoveryModel {
            config_topic: self.config_topic@,
            name: self.name@,
            state_topic: self.state_topic@,
            device_class: self.device_class@,
            icon: self.icon@,
            value_template: self.value_template@,
            unit_of_measurement: self.unit_of_measurement@,
            unique_id: self.unique_id@,
            model: self.model@,
        }
    }
}

/// The discovery document that announces statistic `id`, described by `stat`.
pub open spec fn discovery_model(id: Seq<char>, stat: crate::stats::StatModel) -> DiscoveryModel {
    DiscoveryModel {
        config_topic: config_topic_text(id),
        name: display_name_text(stat.name, stat.property),
        state_topic: state_topic_text(id),
        device_class: crate::stats::device_class_text(stat.device_class),
        icon: stat.icon,
        value_template: value_template_text(stat.property),
        unit_of_measurement: crate::stats::unit_text(stat.unit),
        unique_id: unique_id_text(id),
        model: "eSmarter Client"@,
    }
}

/// Home Assistant reads a statistic where the bridge publishes it: the state
/// topic of its discovery document is the topic of its updates, and its value
/// template reads the property that the updates carry.
pub proof fn law_discovery_points_at_updates(id: Seq<char>, stat: crate::stats::StatModel)
    ensures
        discovery_model(id, stat).state_topic == state_topic_text(id),
        discovery_model(id, stat).value_template == value_template_text(stat.property),
{
}

/// Every statistic, whatever its unit or device class, is announced as a
/// sensor: its discovery document goes to
/// `homeassistant/sensor/esmart/<id>/config`. The document names it after the
/// statistic and its property, points Home Assistant at `esmart/<id>/state`
/// and at the statistic's property, passes on its device class, icon and unit
/// unchanged, and identifies it (and its device) as `esmart_<id>`.
pub proof fn law_discovery_document(id: Seq<char>, stat: crate::stats::StatModel)
    ensures
        discovery_model(id, stat).config_topic == "homeassistant/sensor/esmart/"@ + id
            + "/config"@,
        discovery_model(id, stat).name == stat.name + " ("@ + stat.property + ")"@,
        discovery_model(id, stat).state_topic == "esmart/"@ + id + "/state"@,
        discovery_model(id, stat).device_class == crate::stats::device_class_text(
            stat.device_class,
        ),
        discovery_model(id, stat).icon == stat.icon,
        discovery_model(id, stat).value_template == "{{ value_json."@ + stat.property + " }}"@,
        discovery_model(id, stat).unit_of_measurement == crate::stats::unit_text(stat.unit),
        discovery_model(id, stat).unique_id == "esmart_"@ + id,
        discovery_model(id, stat).model == "eSmarter Client"@,
{
}

/// The topic on which the state of statistic `id` is published.
pub fn update_topic(id: &str) -> (t: String)
    ensures
        t@ == state_topic_text(id@),
{
    join3("esmart/", id, "/state")
}

/// The discovery document for statistic `id`, described by `stat`.
pub fn discovery(id: &str, stat: &Stat) -> (d: Discovery)
    ensures
        d@ == discovery_model(id@, stat@),
{
    let config_topic = join3("homeassistant/sensor/esmart/", id, "/config");
    let mut name = join3(stat.name(), " (", stat.property());
    name.append(")");
    let mut unique_id = String::from_str("esmart_");
    unique_id.append(id);
    Discovery {
        config_topic,
        name,
        state_topic: update_topic(id),
        device_class: String::from_str(stat.device_class_str()),
        icon: String::from_str(stat.icon()),
        value_template: join3("{{ value_json.", stat.property(), " }}"),
        unit_of_measurement: String::from_str(stat.unit_str()),
        unique_id,
        model: String::from_str("eSmarter Client"),
    }
}

/// Why the MQTT connection cannot be set up.
#[derive(Clone, Copy, Debug, PartialEq, Eq, Structural)]
pub enum CredentialsError {
    /// A user name was given without a password.
    MissingPassword,
}

/// The credentials to log in to the MQTT broker with: none without a user
/// name, the pair when both are given; a user name without a password is an
/// error (a password without a user name is ignored).
pub open spec fn credentials_outcome<'a>(username: Option<&'a str>, password: Option<&'a str>) -> Result<
    Option<(&'a str, &'a str)>,
    CredentialsError,
> {
    match (username, password) {
        (None, _) => Ok(None),
        (Some(u), Some(p)) => Ok(Some((u, p))),
        (Some(_), None) => Err(CredentialsError::MissingPassword),
    }
}

/// Checks the MQTT login settings, as [`credentials_outcome`] says.
pub fn mqtt_credentials<'a>(username: Option<&'a str>, password: Option<&'a str>) -> (r: Result<
    Option<(&'a str, &'a str)>,
    CredentialsError,
>)
    ensures
        r == credentials_outcome(username, password),
{
    match username {
        None => Ok(None),
        Some(u) => match password {
            Some(p) => Ok(Some((u, p))),
            None => Err(CredentialsError::MissingPassword),
        },
    }
}


/// The broker login: no user name means no login (a lone password is
/// ignored), a user name and a password are used as given, and a user name
/// without a password is refused.
pub proof fn law_credentials<'a>(u: &'a str, p: &'a str, pw: Option<&'a str>)
    ensures
        credentials_outcome(None, pw) == Ok::<Option<(&'a str, &'a str)>, CredentialsError>(None),
        credentials_outcome(Some(u), Some(p)) == Ok::<Option<(&'a str, &'a str)>, CredentialsError>(
            Some((u, p)),
        ),
        credentials_outcome(Some(u), None) == Err::<Option<(&'a str, &'a str)>, CredentialsError>(
            CredentialsError::MissingPassword,
        ),
{
}

} // verus!
