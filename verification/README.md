# rarerankd

Ranks of inscriptions on rare sats, and the search for inscriptions on the sats
of the Trump Casascius window.

- `src/` is the library. It decides: which categories a sat is in, what is
  written to the ledger of ranks, what the ingest loop does next, how a request
  is answered, which inscriptions are hits, what is recorded of them, and when a
  scan is over. It is verified with Verus against the contracts of its functions.
- `app/` is what carries the decisions out: HTTP, SQLite, the index of `ord`,
  files and logs. It holds the programs `rarerankd`, `trumpfind` and
  `trumpfind_redb`, one binary that goes by the name it is called by, or by
  its first argument.
- `tests/` runs the library.

## Modules

| module | what it holds |
| --- | --- |
| `text`, `decimal` | strings and their order, decimal numbers |
| `category` | the categories, and which of them a sat is in |
| `inscription` | the texts of transaction ids, inscription ids and satpoints |
| `json`, `jsonl` | the boundary to `serde_json`, and the files of hits |
| `ord` | the addresses and the answers of the `ord` server |
| `ledger`, `ranking` | the tables, the recording of a rank, and what ranks mean |
| `ingest` | the loop that works through inscriptions |
| `counts`, `daemon` | the counts of the categories, and the daemon's answers |
| `args`, `options` | the command line and the environment |
| `httpscan` | the search over the `ord` server |
| `redbscan`, `satpoints` | the search in the index of `ord` |

The laws of the library are the proof functions named `law_..`. What is taken on
trust of `serde_json` stands in `src/json.rs`, and nowhere else.

## The window

The sats from 215041381749581 up to and including 215041481749580: one bitcoin's
worth of sats.
