# fortress_wallet

A threshold wallet core for EVM chains. A private key is split into Shamir shares the moment
it is generated; any `threshold` of them sign together, fewer reveal nothing, and the key
exists in one place only while a signature is made.

- `src/` is the library, verified with Verus. Every function says in its contract what it
  returns, for every input that it takes. A few take not every value of their types, and say
  so in their `requires`: a passphrase below 4 GiB, call data that fits in memory, a release
  time that can be written down, a digest that the key has a signature for.
- `app/` is a command-line program and a C bridge around it: terminal, files, network, JSON.
- `tests/` runs the library with the real cryptographic crates.

| Part | Modules |
|---|---|
| Mathematics | `bytes`, `field`, `poly` |
| Keys and shares | `secret`, `scalar`, `keys`, `hash`, `shamir`, `ceremony`, `recovery` |
| Transactions | `decoder`, `rlp`, `evm_codec`, `evm`, `erc20`, `policy`, `time` |
| Storage | `storage`, `wallet` |
| Nodes | `rpc`, `rpc_evm`, `poll` |
| Requests | `request`, `job`, `flow`, `session`, `cli` |
| Text | `text`, `hex`, `encoding`, `json` |

What holds of the library as a whole stands in the public proof functions whose names begin
with `law_`, next to what they speak of and, for whole requests, in `flow_laws`.

What the outside crates compute is believed, not proved. Each such call stands in a small
function marked `external_body`, with a contract that says what is believed of it.
