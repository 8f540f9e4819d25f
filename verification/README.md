# heimdall

Resource statistics of the devices on a local network.

A device opens a connection to the server, says that it is there, and reports its
processor and memory usage over and over. The server keeps one entry per device and tells
each of its listeners of all devices whenever something has changed.

- `src/` is the library, verified with Verus: the wire format (`message`, `wire`, `bytes`)
  and what reading gives back of writing (`roundtrip`), what becomes of the bytes of a
  connection (`stream`), the devices and listeners of the server (`server`, `registry`,
  `channel`) and what holds of them (`history`, `server_laws`), how a device reports
  (`client`) and what its connections carry when things fail (`client_laws`), and a server
  for one machine alone (`local`, `local_channel`, `local_laws`).
- `app/` puts threads, sockets, locks and the configuration file around it.
- `tests/` runs the library.

Usage figures are single-precision numbers. The library holds them as bit patterns.
