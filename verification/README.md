# Rieko

Operational intelligence for Bitcoin and Lightning nodes: it takes in what nodes and
servers report, keeps findings, recommends actions, and projects what an action would
do before anyone takes it. A projection never touches a node.

## Layout

- `src/` is the library. Every function in it is verified with Verus against the
  contract in its header. What holds across functions is stated and proved in the
  public proof functions named `lemma_..`.
- `app/` is the code around the library: SQLite, HTTP clients, webhooks, JSON forms of
  the library's types, and the arithmetic on doubles.
- `tests/` runs the library on concrete values.

## The library

| Modules | What they hold |
|---------|----------------|
| `domain`, `ingest`, `finding`, `action`, `records`, `status` | the types that everything speaks of |
| `time`, `text`, `json`, `ratio`, `portion`, `numeric` | moments, strings, JSON values, and doubles by their bits |
| `identity` | stable identities of findings and actions, and digests of channel states |
| `lnd_model`, `lnd_normalize`, `lnd_client` | what LND says, normalized |
| `btcpay_model`, `btcpay_webhook`, `btcpay_adapter` | what a BTCPay server says, and who may send webhooks |
| `core_chain` | what Bitcoin Core says of its chain |
| `graph`, `path`, `history` | the graph of channels, cheapest paths through it, and its past |
| `engine`, `execution`, `llm` | recommendations, the stages of an action, and prompts for explanations |
| `simulator`, `model`, `simulation_app` | projections, and how they are requested, stored and shown |
| `memory_storage`, `retention`, `codec`, `migrations` | storage: in memory, for how long, as rows, and by which schema |

## What is taken on trust

A few calls go to other crates: hashing (`sha2`, `hmac`), hexadecimal (`hex`), comparison
in constant time (`subtle`), dates (`chrono`), JSON (`serde_json`), URLs and header values
(`reqwest`) and fresh identities (`uuid`). Three go to the standard library: pushing a
character onto a string, writing a string in its debug form, and reading bytes as UTF-8.
Each stands in an item of its own whose documentation says what is assumed of it.
Everything else is proved.
