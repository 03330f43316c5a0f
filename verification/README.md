# nexus

A verified library for societies of autonomous agents. Identities sign facts;
each author's facts form a hash chain; a log takes them in any order and replays
them into a local view of the society: relations, collectives, workspaces,
tasks, settlements and capabilities. Mutual credit, payment routing and a task
market stand beside it.

`src/` is the library, proved with Verus. Contracts speak of mathematical views:
every type has a deep view, and an operation's contract is a function from the
view before to the view after.

| Module | What it holds |
|---|---|
| `types`, `facts` | the vocabulary: identifiers, permissions, facts of a society |
| `did`, `base58`, `identity` | identifiers of Ed25519 keys, signing, encrypted identities |
| `capability` | signed grants and their delegation |
| `credit`, `ledger`, `trust` | bilateral credit, ledgers, payment routing as maximal flow |
| `settlement`, `anchor` | proofs of payment and authority anchors |
| `task`, `market`, `task_market` | tasks, receipts, bidding, and the board replayed from facts |
| `protocol`, `event_log`, `chains`, `delivery`, `compaction` | signed events, the log of chains, its convergence and compaction |
| `recovery` | succession of identities |
| `society`, `memory`, `resume`, `legacy` | the replayed society, its checkpoints, old events |
| `recommend`, `reach` | whom to ask, what to answer, how far trust reaches |
| `manifest`, `registry` | what agents offer |
| `confidential` | encrypted envelopes |
| `wire`, `outside` | documents, and the boundary to other crates |
| `table`, `order`, `text`, `twin` | collections, sorting, text, copies |

`app/` is ordinary Rust around it: files, serialised forms, floating-point
scores and prices, messages. `tests/` holds the tests.
