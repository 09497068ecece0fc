# mc-adsb

An ADS-B relay for an RC club. It polls [adsb.lol](https://adsb.lol) for the traffic around a
point and sends it to browsers over a WebSocket, together with the trail of each aircraft and
alerts for aircraft that are about to enter a restricted area.

- `src/` is the library: the rules of the relay, verified with Verus.
  - `poll`: when to poll, what to ask for, what a poll makes
  - `history`, `trail_laws`: the trails (`mc_history`), and what holds of them over many polls
  - `alert`: predictions and alerts (`mc_alert`)
  - `sim`: the simulated aircraft
  - `feed`: the latest snapshot, and the clients' connections
  - `aircraft`: what is read of an aircraft record
  - `json`: JSON values, on top of `serde_json`; all trusted declarations are here
  - `ieee`: comparisons of doubles by bit pattern
  - `text`: trimming and decimal numbers
- `app/` is the server: arguments, HTTP, WebSockets, and the floating-point geometry. It reads the
  web page from the directory `web`.
- `tests/` runs the library.

## Messages

Each poll that the service answers sends one message, and so does each poll while a simulation
runs. It has `center`, `radius_nm`, `restricted`, `now`, `total` and
`aircraft`. Every entry of `aircraft` is the record as it came from upstream, with up to two more
fields:

- `mc_history`, on every entry: up to 10 previous positions as `[lat, lon]` pairs, oldest first,
  without the current one. A report continues the trail of an aircraft that was seen at most 30
  seconds ago. The trail of one that was not seen for 30 seconds is dropped. The list is empty where
  no trail is known.
- `mc_alert`: `min_distance_m`, `eta_s` and `inside`, on aircraft that are at or below the ceiling
  and inside the restricted area, or predicted to enter it within the horizon, and on no other.
  `min_distance_m` is the smallest distance from now to the horizon; `eta_s` is 0 inside.
