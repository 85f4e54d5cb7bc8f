# deetbeam

The decisions of two small systems programs, written in Verus and proved against their contracts:

- **deet**, a command-line debugger for one traced child process (`src/debugger`);
- **balancebeam**, a load-balancing HTTP proxy with passive and active health checks and a rate
  limit per client (`src/proxy`).

`src/text` holds the text rules of the debugger: words of a line, hexadecimal addresses, decimal numbers.

The library does no input or output, except that a search for an upstream server takes the seed of
its random draws from the operating system. Each part is a state machine: it is told what happened, and
answers with what to do next. `app/` performs the actions: the terminal, sockets, threads, locks and
the command line. The bytes of HTTP messages and the tracing of a process come in through two
traits there, `Wire` and `Platform`.

## What is proved

- `Debugger::run` and `Debugger::get_next_command` follow their transition functions exactly. There
  is never more than one inferior, none is left behind, and every run gets all breakpoints
  (`src/debugger/laws.rs`).
- An address reads as the number that it spells in hexadecimal, or is refused (`src/text/address.rs`).
- A search for an upstream server tries each live server at most once and gives up only when none is
  left (`src/proxy/upstream.rs`).
- After a round of health checks exactly the servers that failed are dead (`src/proxy/health.rs`).
- In no minute are more requests of a client let through than the limit allows, and none is refused
  without need (`src/proxy/rate_limit.rs`).
- Every request gets exactly one answer, and none is forwarded that the limiter has not let through
  (`src/proxy/connection.rs`).

## What is trusted

Three calls into other crates, each behind a small wrapper with a stated contract: seeding and
drawing from a random number generator (`rand`), and building a request (`http`).
