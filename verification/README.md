# swipe_governance

Token-weighted governance for a Soroban contract, with its rules proved in Verus.

- `src/` is the verified library. `types` and `state` hold the records and their models; `math`,
  `bytes`, `collections` and `tables` what they are made of; `proposals`, `voting`, `finalization`,
  `execution`, `lifecycle`, `deposits`, `delegation`, `thresholds`, `validation` and `statistics` the rules;
  `invariants` and `laws` what holds of all of them together.
- `tests/` runs the library on concrete values, with the Soroban host linked in.
- `app/` is the glue to the ledger: storage, authorizations and events.

The library works on a `Governance` value. A request returns its result and leaves in the outbox the
authorizations that the caller has to demand and the events that it has to publish. Every function
states what it returns and how it changes the state, for every input; `collections` lists the calls
into the Soroban SDK whose effect is believed and not proved.
