# zipher_engine

The decision-making core of a light Zcash wallet engine, verified with Verus.

The library decides; the program around it performs. An operation that talks to
a database, a server or a device is a small state machine: its stage says what
to do next, the caller does it and hands back what came of it, and `step` gives
the next stage. Each machine has a spec function of the same shape, and the laws
about whole runs are public proof functions over it.

| Module      | What it decides                                                        |
|-------------|------------------------------------------------------------------------|
| `engine`    | the engine's settings, opening and encrypting its databases            |
| `sync`      | starting and stopping a synchronisation, its progress, inactive wallets |
| `retry`     | passes one after another, with a growing wait after failures           |
| `pass`      | one pass: subtree roots, chain tip, ranges, batches, reorganisations   |
| `roots`     | subtree roots and chain states as the server sends them                |
| `utxos`     | the transparent outputs of every account                               |
| `inactive`  | one batch of blocks for each inactive wallet                           |
| `cache`     | the rows of the block cache                                            |
| `send`      | checking and proposing a send, the most that can be sent               |
| `spend`     | creating, fetching and broadcasting a transaction                      |
| `hw_signer` | the same with a hardware device                                        |
| `keys`      | the spending key of a seed phrase                                      |
| `failure`   | what is reported when an operation on money fails                      |
| `paths`     | file paths as text                                                     |
| `text`      | searching and building text                                            |
| `external`  | the calls into outside crates, with what is relied on of each          |

`app/` is the engine around the library: SQLite, gRPC, files and devices.
