# basc_staking

A verified library for staking ape and tiger NFTs, alone or in matched
pairs, and paying rewards per epoch of staking.

- `src/` is the library, verified with Verus:
  - `key` – 32-byte addresses;
  - `constants` – pool sizes, the epoch length and the reward tables;
  - `reward` – the reward of one NFT or one pair over a span of time;
  - `account` – the global totals and the per-user pools, with staking,
    withdrawal and claims;
  - `metadata` – reading an NFT's metadata record, and the metadata-address
    and collection checks made before a stake, in order;
  - `name` – reading the id that follows the `#` in an NFT's name;
  - `program` – what each instruction decides and changes;
  - `laws` – properties that relate several operations, among them that the
    global totals count exactly what all pools hold.
- `tests/` runs the library on concrete values.
- `app/` is the on-chain program around the library: account layouts,
  loading and storing accounts, the clock and token transfers.
