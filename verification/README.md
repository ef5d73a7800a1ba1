# idx_mcp

Decision logic of a remote MCP server that gives AI agents Indonesian (IDX)
market data: prices, fundamentals, broker flow, KSEI ownership, and corporate
announcements. Tools query columnar Parquet through an embedded DuckDB.

The library under `src/` is verified with Verus: every function states what it
returns, and the promises that span functions are proved as `law_*` proof
functions. The program under `app/` does the I/O around it: DuckDB, SQLite,
HTTP, the headless browser, and the MCP transport.

## Modules

- `catalog`: the tables and views, and what a query may reference
- `vet`: the guard on untrusted SQL, over the parse tree of the engine's parser
- `analytics`: cleaning, probing, bounding a query, and reading its rows
- `pool`: the connections, and what becomes of one when its task ends
- `serving`: loading the data, building the views, serving files and options
- `schema`: describing tables and views
- `tools`, `screen`: requests, the statements that answer them, and the answers
- `auth`, `oauth`, `keys`: the bearer guard, the authorization server, and the
  statements of the key store
- `records`: what those statements do to the stored records, and the laws of calls
  that follow one another
- `filings`: which filings may be fetched, how, and what becomes of them
- `config`, `cli`, `store`, `etl`: settings, command line, and side jobs
- `json`, `names`, `text`, `errors`: the vocabulary of the other modules

Calls into other crates (`serde_json`, `sha2`, `rand`, `base64`) stand behind small
functions whose doc comments say what is taken on trust.

## Run

```bash
IDX_DATA_DIR=./data idx-mcp        # serves http://127.0.0.1:8080/mcp
idx-mcp keys add my-agent          # prints a new API key, once
```

Under the names `etl` and `q` the program is the export job and an ad-hoc query
tool. The server starts itself as `idx-mcp extract-text` to extract the text of one
filing in a process of its own, with a time limit.
