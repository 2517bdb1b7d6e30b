# evmqtt-rs

`evmqtt-rs` turns keyboard key presses into MQTT messages and integrates with
Home Assistant. It watches `/dev/input/event*` for keyboards, keeps every keyboard
it has seen in a local database, mirrors that database into retained MQTT topics,
and publishes the key events of the devices that are switched on.

`src/` holds the logic, with contracts that Verus proves:

| Module        | What it holds                                                        |
| ------------- | -------------------------------------------------------------------- |
| `text`        | comparison, trimming and numerals on text                            |
| `textmap`     | an ordered map keyed by text                                         |
| `slug`        | slugs of device and key names                                        |
| `topics`      | topic builders and parsers, payload words, actions                   |
| `codes`       | lists of evdev codes                                                 |
| `discovery`   | identity, fingerprint and tag of an input device; event nodes        |
| `db`          | the device database                                                  |
| `store`       | its file format, loading it, replacing the file atomically           |
| `json`        | JSON documents (`serde_json`)                                        |
| `toml_tree`   | TOML documents (`toml`)                                              |
| `config`      | settings                                                             |
| `hass`        | device-info and discovery payloads                                   |
| `mqtt`        | messages, connection states, how failures are met                    |
| `coordinator` | the reaction to devices, keys and commands, as state and effects     |
| `laws`        | what holds of the coordinator as a whole                             |
| `client`      | listing and managing devices over MQTT                               |
| `monitor`     | one device's key events                                              |
| `watcher`     | which nodes to open, and for how long to try                         |
| `cli`         | what the management commands send and print                          |
| `daemon`      | client id, greetings and phases of the daemon                        |

`app/` is the program around it: command line, files, devices, network and tasks.
It performs the effects that the library asks for and hands events back.
`tests/` exercises the library.
