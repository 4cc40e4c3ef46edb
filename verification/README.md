# algotrading

Verified core of a momentum trading bot for Interactive Brokers TWS, written in Verus.

## Layout

- `src/` — the verified library:
  - `calendar.rs`: calendar dates as plain values, the Gregorian rules, and the calendar
    operations delegated to `chrono` (weekday, previous day, in-month day arithmetic,
    today's local date) with their trusted contracts.
  - `futures_utils.rs`: contract months and CME month codes, leap years and month lengths,
    third Fridays, business-day counting, quarterly / monthly / end-of-month expiry rules
    and the front-month contract (`YYYYMMDD` expiry, `YYYYMM` contract month).
  - `market_data.rs`: the analysis timeframes, their lengths, labels and lookback ranges.
  - `price_history.rs`: the market data handler's bookkeeping: request symbols and per-symbol
    price histories (historical prices kept in time order, real-time prices appended, both
    trimmed to the history's maximum) and the prices inside a timeframe's window, with the
    price as an opaque payload.
  - `momentum.rs`: the strategy's non-numeric decisions: which held positions to exit and
    which order type to send.
  - `orders.rs`: the order book (numbering from 1000, status changes, lookups, open orders).
  - `connection.rs`: which broker contract a configured security is traded as.
  - `config.rs`: connection settings and the non-numeric configuration defaults.
  - `signals/`, `bollinger.rs`, `breakout.rs`, `carry.rs`, `margin.rs`, `risk.rs`,
    `position_inertia.rs`, `risk_budgeting_inertia.rs`, `security_types.rs`: the shared
    classifications of the signal, risk and margin layers.
- `tests/` — tests run against the compiled library.
- `app/` — the command-line front end: configuration loading (JSON) and the front-month
  contract report.
