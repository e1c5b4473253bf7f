# Batch Mint Proxy

A Soroban contract that forwards a batch of mint requests to a wrap registry,
one `mint_wrap` call each, all or none.

- `src/` is the verified library. It decides: what `initialize`,
  `set_wrap_contract` and `batch_mint_wrap` accept, what they write, whose
  authorization is needed, which item is forwarded next and how a batch ends.
  `src/laws.rs` states what holds of the proxy as a whole, among it that a
  batch is atomic against any registry.
- `app/` is the contract. It reads and writes the instance storage, asks the
  host for authorization and calls the registry with `invoke_contract`, which
  does not return where the registry fails: the host then rolls back the whole
  invocation.
- `tests/` runs the library on the Soroban test host.

| Code | Error | Trigger |
| --- | --- | --- |
| 1 | `NotInitialized` | A batch or a change of registry before `initialize`. |
| 2 | `AlreadyInitialized` | A second `initialize`. |
| 3 | `Unauthorized` | A change of registry that the admin did not authorize. |
| 4 | `EmptyBatch` | A batch without items. |
| 5 | `BatchTooLarge` | A batch of more than 100 items. |

The contract asks for the admin's authorization with `require_auth`, which the
host fails with an authorization error of its own. `Unauthorized` is what the
library answers where it is told of a denial.
