# rs-postgres-stat2otel

Turns the rows that configured SQL queries return into opentelemetry gauge readings.

- `src/` is the verified library: config conversion (`gauge`, `label`,
  `single`, `multi`, `query`), rows and their maps (`col`, `row`, `table`), the gauge
  registry and the readings of a row (`metrics`), and the opentelemetry calls it makes
  with what is assumed of them (`otel`).
- `app/` holds what cannot be verified: reading the TOML config with serde,
  floating-point gauges and columns, and the loop that asks a data source for rows.
- `tests/` runs the library.
