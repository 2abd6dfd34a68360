# rust_pytes_serial

A bridge from the serial console of Pytes / Pylontech battery banks to MQTT (with Home
Assistant discovery). The decisions of the bridge live in a library verified with Verus;
a thin program around it does the I/O.

## Layout

- `src/` — the verified library:
  - `text.rs`, `numbers.rs`: string and integer syntax (`trim`, `split_whitespace`,
    `str::parse`, decimal writing) as specifications with verified implementations;
  - `parsing.rs`: the `pwr`, `pwrsys`, `stat` and `bat` responses;
  - `model.rs`, `events.rs`: pack, cell and bank records (readings in exact
    thousandths), the bank aggregate and the event counters;
  - `config.rs`: settings from environment variables (with defaults) or INI text;
  - `mqtt.rs`: topics, the discovery plan, the per-cycle publishing plan, the
    publish cache and the publishing round that consults it;
  - `serial.rs`: the line collector that turns received bytes into response lines;
  - `schedule.rs`: polling period, `stat` timing, the commands of a cycle, and the
    reconnect decision.
- `app/` — the program: environment, serial port (`serialport`), MQTT client
  (`rumqttc`), JSON payloads (`serde_json`), the async loop (`tokio`), `--mock` data.
- `tests/` — tests of the library on concrete values.

Every public law of the library is a `pub proof fn law_*` next to the functions it
relates.
