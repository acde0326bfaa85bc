# crypto_tracker

A scanner for markets that have moved sideways after an upward spike. It watches the
USDT markets of the exchange, looks for candidates in their latest candles, and reports
each spike once to a Telegram chat.

The decisions are a library that Verus verifies; the program around it does the input and
output.

- `src/detector.rs`: when a market is a candidate
- `src/config.rs`, `src/cli.rs`: the configuration, where it comes from and when it is valid
- `src/binance.rs`, `src/pager.rs`, `src/feed.rs`: candles, page by page and from the stream
- `src/market.rs`: the markets that are tracked, and the search among them
- `src/alerts.rs`, `src/state.rs`: what is reported, and what has been
- `src/telegram.rs`, `src/healthcheck.rs`: messages and healthcheck calls
- `src/retry.rs`, `src/session.rs`: waits, repeats and the order of work
- `src/number.rs`, `src/ordering.rs`, `src/text.rs`, `src/text_map.rs`, `src/json.rs`,
  `src/status.rs`, `src/time_utils.rs`: what the others are built on
- `app/`: the program
- `tests/`: tests of the library

Prices and volumes are double-precision numbers. The library carries them as bit patterns
and compares them itself; sums, products, quotients, reading and writing are asked of
functions that the caller passes in. Contracts are stated over the answers of these
functions, which are taken to be the same for the same question.

What the library takes from other crates without proof stands in the functions marked
`external_body` and in one `assume_specification`, each with a comment that says what is
claimed.
