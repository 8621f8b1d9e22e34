# vote-checker

Checks which validator accounts have no vote transaction in the blocks of a
list of slots.

    vote-checker --url $SOLANA_RPC_URL --accounts accounts.json --range slots.json
    vote-checker --url $SOLANA_RPC_URL --account A,B --slot 349000000 --distance 20

`accounts.json` is a JSON array of account names, `slots.json` a JSON array of
slot numbers.

## Layout

- `src/` is the library, verified with Verus: which accounts and slots are
  checked, how requests are written and replies read, when a request is
  repeated, who leads a slot, which accounts missed votes, and which slot a vote
  transaction votes for.
- `app/` is the program around it: arguments, files, the network and the
  terminal.
- `tests/` runs the library.
