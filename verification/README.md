# daman-bridge

The Daman ForagerBee for hum: a bidirectional translator between the Daman
copy-bond contract on Arc and the hum mesh. The logic is a library verified
with Verus; sockets, HTTP and the clock are ordinary Rust around it.

## Wire

| Arc event | hum tone |
|---|---|
| `LeaderBondPosted` | `leader-bond-posted` |
| `FollowerSubscribed` | `follower-subscribed` |
| `TradeExecuted` | `trade-executed` |
| `SettlementCompleted` | `settlement-completed` |
| `DegradationFlagged` | `degradation-detected` |
| `DisputeOpened` | `dispute-opened` |
| `ArbiterRuled` | `ruling` |
| `BondSlashed` | `bond-slashed` |

| hum tone | Arc call |
|---|---|
| `slash-claim` | `attestDegradation(leader, evidenceHash)`, with a builder tag |
| `ruling` | `arbiterRule(claimId, slashAmount, upheld)`, with a builder tag |

## Configure

| env | required | default |
|---|---|---|
| `DAMAN_COPY_BOND_ADDR` | yes | none |
| `DAMAN_BRIDGE_SENDER` | yes | none |
| `DAMAN_BRIDGE_RPC` | no | `https://rpc.testnet.arc.network` |
| `DAMAN_BRIDGE_POLL_MS` | no | `4000` |
| `HUM_THRUM_SOCK` | no | `$XDG_RUNTIME_DIR/hum/thrum.sock` |

## Layout

* `src/`: the library. Every function has a contract; functions named `law_*`
  state what holds across functions.
* `tests/`: tests of the library.
* `app/`: the program.

## What is trusted

The library calls `sha3` (Keccak-256), `hex` and `serde_json`. What it relies on
about them stands in `src/digest.rs` and `src/json.rs`, above each call. The
claims about `serde_json` hold for its default features: with `preserve_order`
the text of an object would depend on the order of its members.
