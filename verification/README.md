# imgdl

Batch image downloads over HTTP/1.1 and HTTP/2, with a verified core.

- `src/` is the library. It decides what to request, when to try again, which connection to
  use, what a file is called and what is reported. It is written in Verus: the contracts of
  its functions are proved, and the public proof functions state what holds of several of
  them together.
- `app/` drives the library: sockets, TLS, timers, files and the Python extension module.
- `tests/` runs the library on concrete values.

## Modules of the library

| module | what it decides |
|---|---|
| `batch` | which URLs of a batch are downloaded, and which result belongs to which |
| `download` | what comes next in the download of one URL |
| `transport` | what is sent, and what each reply means |
| `uri` | where a redirect leads |
| `retry` | whether and when an attempt is made again |
| `pool`, `host_pool` | which connection serves a request, and when one is opened |
| `connect` | how a connection is opened |
| `dns` | how long a resolved name is believed |
| `headers`, `output::validation` | what headers say, and whether a body is complete |
| `output::naming`, `hash` | what a file is called |
| `output::metadata`, `output::summary` | what is recorded of a file and of a batch |
| `python`, `stub` | what Python callers pass in and get back, and how that is typed |
| `orchestrator` | what is kept from one batch to the next |
| `config`, `types`, `time`, `text` | settings, results, spans of time and text |

What the library takes from outside (digests, URI parsing, header maps, an ordered map,
paths, the clock) is behind small functions marked `external_body` or `assume_specification`, each of
which says what is believed of it.
