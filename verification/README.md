# spreadeater

The decision core of a market maker for binary prediction markets that pay liquidity rewards, as a
library verified with [Verus](https://github.com/verus-lang/verus), and the input and output around
it.

The bot rests bids on both outcomes of a market to earn rewards. When one is filled it gets rid of
the exposure by whichever exit is cheaper: it buys the opposite outcome and merges the pair into
cash, or it sells the filled shares back. What it decides on the way, from the price of a quote to
the emergency stop, is in `src/`, with its behaviour stated in contracts and proved.

## Layout

| Where | What |
| --- | --- |
| `src/decimal.rs` | Decimal numbers, modelled as integers; the arithmetic is `rust_decimal`'s |
| `src/text*`, `src/json*`, `src/time.rs`, `src/crypto.rs`, `src/keyed.rs` | Texts, JSON values, times, digests and signatures, lookups by key |
| `src/models*`, `src/config.rs` | Orders, quotes, books, positions, events, settings |
| `src/strategy/` | Quotes, hedgeability, the estimate of the reward share, viability, calibration |
| `src/trading/` | Orders in the market, hedges, positions, risk limits, the exchange's answers, merges |
| `src/watchdog/` | Health of the streams, the status page, escalation and the emergency stop |
| `src/runtime/` | Cycles over all markets, live probes, replays and their reports |
| `app/` | HTTP, WebSocket, files, processes and timers |
| `tests/` | Tests of the library |

## What is stated

Contracts speak of mathematical models: a decimal is the integer number of units of `10^-28` that it
stands for, a text is a sequence of characters, the orders in the market are sequences and sets. An
operation on decimals is exact where some decimal equals the exact result. Where none does, the
contracts name what `rust_decimal` rounds to, and know that no decimal lies between that and the
exact result.

Where a step on the way may overflow a decimal, the function requires that none does. There are three
forms. A condition over exact sums and differences of the arguments (two sizes differ by no more than
a decimal can hold) stands in the `requires` alone. A condition that depends on rounded results on the
way is a predicate named `..._fits`; beside such a function stands `try_...`, which takes every input
and gives nothing exactly where the predicate fails. Functions that no caller needs without that test
return an `Option` or an error themselves.

Proof functions named `law_...` state what holds across functions, such as that a plan for a fill
neither loses nor makes up shares and that no other split of them is cheaper, that an order whose cancellation is not confirmed stays on the
books, that a market whose hedge is overdue is not traded, and that the watchdog acts only when it
is told to enforce.

Calls into other crates and into the clock stand behind functions marked
`#[verifier::external_body]`, whose comments say what is taken for granted of them.
