# xphttpbridge

The verified core of XPHTTPBridge, an X-Plane plugin that exposes DataRefs
over an HTTP API.

- `src/` is the library, proved with Verus:
  - `text.rs`: splitting text into words and lines, joining words;
  - `number.rs`: reading and writing port numbers in decimal;
  - `config.rs`: the `[server]` settings of `config.ini` (read with `rust-ini`);
  - `dataref.rs`: the entries of `DataRefs.txt`, the type names of scalar and
    array values, and the map from DataRef names to types (`regex`, `ahash`);
  - `ref_actions.rs`: the order in which a DataRef of unknown type is probed;
  - `server.rs`: the listen address and the answer of each route.
- `app/` is the plugin around it: X-Plane SDK calls (`xplm`), file reading,
  the `axum` server and the JSON forms of the values.
- `tests/` runs the library on concrete inputs.
