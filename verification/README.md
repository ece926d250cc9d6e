# spark_matcher_worker

A worker that takes batches of spot orders from a matching server, checks
each batch's spread, submits it to the market contract with the next of its
wallets in turn, and reports the resulting order updates.

- `src/` is the verified library: the message types, the spread check and
  batch processing (`order_processor`, `spread`), wallet rotation, the
  requests a worker sends and its reactions to the server's frames
  (`matcher_client`), the step function of its polling round (`session`),
  and the UUID and hexadecimal readers it relies on (`codec`).
- `app/` runs the worker: environment settings, the websocket, the wallet
  semaphore, spawned processing tasks, JSON encoding, and the calls to the
  Fuel provider and the market contract.
- `tests/` exercises the library on concrete values.
