# trading_engine

A low-latency algorithmic trading engine built around a single-producer,
multi-consumer ring buffer (the LMAX disruptor pattern), with its core
logic verified by Verus.

`src/` is the verified library:

- `disruptor` — the sequence-numbered ring, the producer and the consumers,
  and the proofs that every consumer reads exactly what was published, in
  order, and that the producer never overwrites a value a consumer has not
  read.
- `metrics` — rolling latency statistics (min, average, 99th percentile over
  the last 10 000 samples, max).
- `bar`, `aggregator` — bar timeframes, a newest-first history of bars, and
  when bars of each timeframe open, close and grow.
- `strategy` — trading sessions and the decisions of the Asia-range breakout
  strategy.
- `engine` — the order decision of the business logic processor.
- `events`, `feed` — the 16-byte symbol field of events, the 16-byte MT5 tick
  frame, and the feeds' configuration and addresses.
- `errors`, `config` — the error type and the price-free settings.

`app/` is the program around it: threads and CPU pinning, TCP and websocket
feeds, the Interactive Brokers client, settings loading, logging, and every
computation on floating-point prices (bars, positions, risk, paper
execution, the journal). Run `trading_engine` for the engine and
`trading_engine mock-feed` for the synthetic MT5 tick sender.
