# esmart_mqtt

A bridge from the eSmart home automation box (which posts JSON status
messages to an XMPP room) to an MQTT broker, with Home Assistant
auto-discovery and throttling of updates.

The library under `src/` is verified with Verus:

- `stats`: the description of a published statistic (`Stat`, `Unit`,
  `DeviceClass`) and the texts Home Assistant receives for them.
- `data`: the content of an eSmart message and the statistics that each meter
  and node stands for (`IterStats`, `ESmartMessage::stats`); readings are held
  as the bit patterns of their `f32` values.
- `ids`: the proof that different meters and nodes never publish under the
  same identifier.
- `text`: decimal formatting and string assembly.
- `throttle`: the per-statistic state machine that decides when to announce a
  statistic and when to publish the mean of the readings gathered since the
  last update (the first reading of a statistic is published at once), with
  its laws (every reading is carried by exactly one update or still waits for
  the next, one announcement per statistic, updates spaced by more than the
  throttling period).
- `mqtt`: discovery documents, state topics and the broker login settings.

`app/` is the program around it: command line, XMPP and MQTT connections,
JSON (de)serialisation, the arithmetic on `f32` readings, and the event loops
that feed the library and carry out what it decides.
