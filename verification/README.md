# TenCoin

A small proof-of-work coin (TEC): Bech32-style and multisig P2SH addresses,
signed transfers, blocks with a Merkle root, a chain with a halving reward and
a supply cap of 10,000,000 TEC, an HTTP API, a peer-to-peer node and miners.

- `src/` is the library, verified with Verus: addresses and wallets, keys and
  signatures (through `secp256k1`), hashing (`sha2`, `ripemd`), hex (`hex`),
  transactions, blocks, the ledger of balances, the chain, and the decisions
  of the API, the network node, the miners and the menu. A transfer is valid
  only with an ECDSA signature of its hash by the key of its sender's address;
  its fee goes to the miner of its block, and new coins come only from the
  mining reward. Amounts are integer units
  (1 TEC = 100,000,000 units) and times are nanoseconds since 1970.
- `app/` is the program around it: the `warp` server, the `tokio` network
  node and miners, the interactive menu, and the JSON forms of the library's
  types (`serde`), which show amounts in TEC.
- `tests/` runs the library on concrete values.
