# usps_tracker

A tracker of parcels. It takes tracking numbers from a server, looks each one up with the
carrier, and hands what it found back in batches.

- `src/` is the library: what the tracker decides and computes, verified with Verus.
- `app/` is the program around it: the network, the clock, the files and the environment.
- `tests/` runs the library on concrete values.

The library never talks to the outside. Its machines (`fetch`, `token`, `report_ip`, `producer`,
`submitter`, `lifecycle`) hand out an action, take in an event that says what came of it, and go
on from there; the program performs the actions.

| module | what it holds |
| --- | --- |
| `text` | string operations over characters |
| `json` | JSON values, read and written by `serde_json` |
| `dates` | the forms of a date, read and written by `chrono` |
| `reply` | the row that is submitted for a tracking reply |
| `fetch` | looking one tracking number up, with retries and proxy switches |
| `worker` | what becomes of the result of a look-up |
| `token` | getting a token |
| `proxies` | the list of proxies and their turns |
| `numbers` | the server's addresses, its list of numbers, and the rows as it wants them |
| `producer` | which numbers are new, and when to wait |
| `submitter` | when a batch of rows is handed in |
| `pipeline` | what is handed in over a whole run, from the results of its look-ups |
| `system` | a whole run as steps of the producer, the workers and the submitter: it loses nothing |
| `report_ip` | finding out and reporting the machine's address |
| `lifecycle` | the length of a run and the order of its steps |
| `config` | the settings, from the environment's variables |

The settings are `USPS_CLIENT_ID` and `USPS_CLIENT_SECRET`, which are needed, and `NUM_TYPE`,
`WORKERS`, `USE_PROXY` and `RUN_SECONDS`. Where `RUN_SECONDS` is not set a run takes three to five
minutes; at zero it has no end.
