# request_logging_proxy

A proxy server that forwards HTTP requests to a target and logs each request
and its response in VSCode's REST (`.http`) format.

- `src/` is the verified library: the plain record of a proxied exchange
  (`record`), the log format and the logger (`logger`), the log destination
  and its lock (`writer`), text building blocks (`text`), the computations
  taken from `http`, `serde_json` and std (`codecs`), the logger choice
  (`config`) and the proxy's routing decision (`proxy`).
- `app/` is the program around it: command-line configuration, the server,
  forwarding and tunnelling, and the asynchronous logging channel.
- `tests/` exercises the library on concrete exchanges.
