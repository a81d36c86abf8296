# remittance

A ledger of money transfers that migrant workers send to their families at home, kept
by a Soroban smart contract. A transfer is sent, then either claimed by its recipient
or cancelled by its sender while it is still pending.

- `src/` is the verified library (Verus).
  - `record.rs`: the transfer record, its status, and its mathematical view.
  - `model.rs`: the meaning of every operation over sequences of record views, and the
    outcomes of claims and cancellations with their reply texts.
  - `contract.rs`: the ledger and its operations, each proved to do what `model.rs` says.
  - `laws.rs`: properties of the ledger as a whole, proved.
- `app/` is the Soroban contract: it keeps the ledger in instance storage, asks the
  host for the random id and the ledger time, and converts between the host's values and
  the library's plain ones.
- `tests/` runs the library on concrete transfers.
