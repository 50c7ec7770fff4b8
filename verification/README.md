# repo_server_rs

The DataFed repository server: it answers version requests and deletes,
measures, creates and removes files and directories under a data collection
on behalf of the core server, over ZeroMQ.

`src/` is the library, verified with Verus:

- `wire`, `text`: varints, little-endian integers, decimal text, trimming.
- `proto`: the request and reply payloads and their encodings.
- `message`: message envelopes, acknowledgements and their round trips.
- `path_utils`: how request paths map onto the collection, and the
  security check applied before any file is touched.
- `worker`: what a request asks for (a reply, or file system work), and the
  reply once that work is done; the confinement of all work to the
  collection is proved there.
- `communicator`: socket settings, the frames a message is sent in, the
  frame-by-frame receive, and the messages the factory builds.
- `version`, `config`, `metrics`, `error_handling`, `benchmark`,
  `log_context`: version checks, configuration, counters and health,
  operator messages.

`app/` is the program around it: command line, configuration file, key
files, the C++ bridge, ZeroMQ sockets, worker threads and their file system
calls, and output that needs floating point.

`tests/` exercises the library on concrete values.
