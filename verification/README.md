# options-scanner

Risk-capped order execution for a swing-trading scanner of US equities, with the trading
logic verified by Verus.

- `src/` is the library. Its logic is verified. What it has from `chrono`, `uuid`, `serde_json`
  and one function of `std` it takes on trust: a few small functions in `clock`, `ids`, `json`
  and `text` make those calls, and their doc comments say what is claimed of each.
  - `risk`: the hard caps and the check that every order passes.
  - `executor`, `state`, `broker`: the order pipeline, the day's counters with the kill-switch
    and the trade log, and what goes to a broker.
  - `sim`, `book`, `order`, `sim_laws`: the paper-trade simulator, the model that it follows,
    and what holds of every simulation.
  - `scheduler`: what the unattended scheduler does next.
  - `api`, `health`: what the HTTP server computes between a request and its reply.
  - `rpc`, `catalog`, `prompts`, `query`, `agent`: the MCP server's requests, tools, prompts
    and tool calls.
  - `fixed`, `text`, `clock`, `ids`, `json`: decimals, texts, and the calls into `chrono`,
    `uuid` and `serde_json` that the rest is built on.
- `app/` is the program around it: the two servers, the Alpaca client, the state file and the
  Python scripts' processes.
- `tests/` runs the library.

Amounts, percentages, basis points and scores are decimals with six places, held as integers
of millionths. Decisions on them are exact: an account at a cap or at the kill-switch
threshold is at it, however the numbers round when they are shown. A simulation whose amounts
leave the range of 64 bits ends in an error.

The kill-switch stays tripped over day changes, real and simulated, until it is reset by hand.
Open positions count against the exposure cap until they are closed, on whatever day that is. An
order of whole shares is never worth more than the notional that the caps let through: a signal
whose notional does not buy one share is refused.

The servers do not hear of positions that close at the broker. Until `State::close_position` is
told of them, they count as open.
