# docker_exporter

Docker container metrics in the Prometheus text format.

- `src/` is the library. It holds what the exporter decides and computes, with
  contracts that Verus proves: how a list of containers is counted
  (`containers`), what a reading adds up to (`stats`), how log lines are counted
  (`logs`), when a container was started (`inspect`), how the results of the
  tasks are put together (`record`), what a scrape asks for next (`scrape`), what
  the report says (`prometheus`, with `report_laws` on what holds of every
  report), and what a client is answered (`http`). `config` reads the settings,
  `text` and `pattern` hold the text functions they all share.
- `app/` asks the Docker daemon, waits for its answers and serves the clients.
- `tests/` runs the library on examples.

The library takes the crates `regex` and `chrono` and a few functions of `std` on
trust; each is declared in one place, with what is believed of it. Processor
times are the only values that are not integers. The library carries them as
text.
