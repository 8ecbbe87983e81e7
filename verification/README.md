# lava-viggy

The typed seven-beat controller tick of the lava suite
(Observe → Diff → Classify → Decide → Act → Attest → Tick) and the
Compliance promessa that rides on it, written in Verus.

## Layout

- `src/` — the verified library.
  - `beat.rs`: the beats, beat statuses and tick phases.
  - `report.rs`: beat outcomes and tick reports; `visited_every_beat`.
  - `engine.rs`: the `PromessaController` seam with its default beats,
    and `ViggyEngine::tick`, whose contract fixes the shape of every
    report (canonical order, halting on the first failed beat, skipped
    beats after it) and ties each recorded error, note, phase and
    decision to what the controller and the router answered.
  - `compliance.rs`: control ids, arms, the Compliance promessa, its
    control set and structural validation.
  - `compliance_controller.rs`: the observer seam, the design markers of
    the unwired beats, and the payload a compliance tick attests.
  - `address.rs`, `drift.rs`, `anomaly.rs`, `hash.rs`: the values the
    logic reads from the lava crates (addresses, drift reports,
    anomalies and routing decisions, content hashes).
  - `clock.rs`, `text.rs`, `lexical.rs`: the wall clock, decimal
    rendering, string order and blankness.
  Instants and spans are nanoseconds as `i128`.
- `app/` — the serde forms of the values with their JSON shape,
  conversions to and from the lava crates' types, a router adapter for
  `lava_anomaly` routers, and the outcome-chain append of the compliance
  controller.
- `tests/` — the test suite.
