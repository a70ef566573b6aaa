# warden_graph

Host threat detection over a knowledge graph, and the workflow by which an operator confirms the
guarded actions that detections lead to.

The library, under `src/`, is written in Verus: every executable function is proved against its
contract.

- `graph` – processes, files, users, addresses and ports as nodes, with timed edges between them.
- `persistence`, `recon` – the detectors. Each proposes alerts; what it proposes is a spec function
  of the graph.
- `alert` – from proposals to incidents: every alert has a key, and a key that has fired is held
  back until its cooldown is over.
- `calibration` – what is known of the users of a host.
- `pending`, `two_fa` – confirmations that wait for an operator; listing, approving and denying
  them.
- `decision_confirmation` – asking for a confirmation and registering the request.
- `incident`, `record`, `text`, `time` – the vocabulary of the above.

Laws that span functions are public proof functions in the module of the functions they speak of:
no detection is lost, a run is silent within the cooldown of one before it, a request is decided once
in whatever order operators act, whatever is listed can be decided.

Outside code is called in two places. `time` calls `chrono` for the arithmetic of points in time;
`text` calls `str::to_lowercase`. The doc comment of each such function says what is claimed of the
code behind it.

`app/` holds the HTTP endpoints (axum), the webhook (reqwest) and the conversions to JSON around the
library. `tests/` runs the library on concrete values.
