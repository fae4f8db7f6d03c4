# cost_autopilot

Routes each request to a local language model (free) or to a paid service,
according to the complexity of the prompt, what is left of the daily budget, and
the recent health of each route. The decision is taken before any call; the
complexity is estimated from the text of the prompt alone.

The library under `src/` is written in Verus: each function states in its contract
what it returns or changes, and Verus proves it. What the library promises as a
whole stands in the public proof functions whose names start with `law_`. The
proofs rest on a few declarations that Verus believes: those of the clocks
(`clock`), of lower case and word characters (`complexity`), and of the random
generator (`simulation`). The doc comment of each says what is believed.

| Module | Contents |
| --- | --- |
| `units` | fractions and amounts of money as exact integers |
| `text` | numbers and prefixes in messages |
| `tokens` | estimate of the tokens of a prompt |
| `complexity` | score of a prompt from five named signals |
| `pricing` | rates of the routes and the cost of a call |
| `circuit` | success rate and circuit breaker of a route |
| `router` | the routing decision |
| `store` | the journal of events and the spending of a day |
| `provider` | providers, and the chat completion protocol |
| `engine` | decision, call, fallback, billing and journal |
| `report` | balance of a journal |
| `simulation`, `demo_backend` | synthetic requests and demonstration servers |
| `routes`, `clock` | maps keyed by route, readings of the clocks |

Amounts are held in pico-dollars and rates in nano-dollars for 1000 tokens; a
fraction is a multiple of `1 / RATIO_ONE`. Durations are in nanoseconds.

`app/` is the command line tool: SQLite file, HTTP client, demonstration servers
and display.

```
autopilot simulate --db demo.db --n 30 --seed 7 --daily-budget 2.0
autopilot route "Salut, comment ça va ?"
autopilot report --db demo.db
```
