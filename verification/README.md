# lighter_mm

The core of a two-sided market maker for a perpetuals exchange, verified with Verus, and the program
around it.

- `src/` is the verified library. It decides: which orders are created, moved and cancelled, when a
  batch may go out and what its outcome means, when trading pauses and resumes, how a book follows its
  feed, which fills belong to whom, and what is written to the logs. Every function states what it
  returns or changes. One that reads the clock states what holds of every reading, beside a function
  that takes the reading and is exact; `shared::now_ms`, which only hands a reading on, states
  nothing, as any number of milliseconds can come back. The laws that span several functions are
  public proof functions.
- `app/` is ordinary Rust: sockets, files, the native signer, threads, and all floating-point
  arithmetic. It performs what the library decides and reports back.
- `tests/` runs the library, with the outside crates that it calls.

Prices, sizes and amounts enter the library as `num::Num`, the bits of a double. The library compares
them, negates them and takes their absolute value; sums and products are worked out by the caller and
handed in. Times are nanoseconds of one monotonic clock, or milliseconds since the epoch where a name
says so.

| Module | What it decides |
|---|---|
| `exec::order_manager`, `exec::order_laws` | order slots: one order per slot, no second create, reconciliation |
| `exec::rate_limit` | sliding window, backoff, pacing by volume quota |
| `exec::signing`, `lighter::nonce` | one nonce per operation, given back when a batch fails |
| `exec::paced_send`, `exec::send_flow` | the way of a batch to its outcome, and what that means |
| `risk` | the circuit breaker |
| `book`, `strategy`, `binance` | the books, the signal's windows, the quote ladder, the reference feed |
| `orchestrator` | the market-data task, the reconcile poller, the live feeds |
| `account`, `metrics` | fills, profit, saved state, the trade log, quality of the fills |
| `lighter`, `json`, `text`, `csv_text`, `timestamps` | messages, replies and texts |
| `config` | arguments, credentials, the configuration that live trading needs |

What the library takes on trust are the outside functions it calls: JSON and CSV text, time stamps,
lower case, and the clock. Each stands in a small wrapper that says what is claimed of it.
