# portfolio_manager

Bookkeeping for an options book kept with Interactive Brokers: legs (stocks
and options), positions, income and insurance layers of the book, a
portfolio with its net greeks, margin in use and convexity-coverage ratio,
and an in-memory store of portfolios by name.

`src/` is the library, written in Verus: every function carries a
`requires`/`ensures` contract that Verus proves. Decimal arithmetic is done
by `rust_decimal`, dates by `chrono`, the store by `dashmap` and the screen
layout by `ratatui`; each such call sits behind a small trusted function whose
doc comment says what its contract claims.

`app/` is the terminal program around it: command line, logging, JSON files,
the broker connection and drawing.

`tests/` runs the library on concrete values.
