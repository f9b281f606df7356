# internet-health

A service that probes Internet links, scores them, and tells a home automation hub about them over
HTTP and MQTT.

- `src/` is the library: every decision of the service, with its contract proved by Verus. A round
  of probes (`round`), the window of outcomes (`window`), the latencies (`latency`), the status and
  the score (`status`, `score`, `single`), the table of links with its scoreboard (`links`), the configuration
  (`config`, `text`), and the MQTT session, topics and discovery documents (`mqtt`, `discovery`).
  What the library states as a whole are its `law_*` proof functions.
- `app/` performs what the library decides: HTTP requests, the HTTP server, the broker connection,
  the environment, the clock, and the floating-point part of a score.
- `tests/` runs the library on concrete values.
