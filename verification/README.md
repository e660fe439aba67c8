# webol-cli

A command-line client for a wake-on-LAN server. The library in `src/` is
verified with Verus; `app/` holds the program around it (argument parsing,
configuration loading, HTTP and websocket traffic, progress display).

- `src/server.rs`: URLs of the server and how response statuses are taken.
- `src/headers.rs`: the headers sent with every request.
- `src/requests/device.rs`: the requests of the device commands.
- `src/requests/start.rs`: the status-socket messages and the steps of a start.
- `src/text.rs`: splitting, comparing, reading and writing numbers.
