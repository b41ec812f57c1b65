# cc2-webcontrol

A web interface and monitor for the Elegoo Centauri Carbon 2 printer.

- `src/` is the verified library (Verus): the MQTT-over-WebSocket codec, the
  printer session's decisions, the printer state and its event log, status
  normalisation and phase labels, JSON merging of status pushes, request
  planning and reply checking, settings and notification destinations, the
  notification planner with its cooldowns, the detection counters, upload
  chunking, snapshot listing, camera frame extraction and the live view's
  messages.
- `app/` is the server around it: `main`, the SQLite store, the HTTP and
  WebSocket interface, the network clients, the Docker control of the
  detection service, and the floating-point parts of detection.
- `tests/` exercises the library.
