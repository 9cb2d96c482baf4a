# fanclash

The rules of a football fan service — votes on fixtures, bets and pledges
between fans, channel memberships and admin payouts, sub-fixture markets,
posts, comments, chat, M-Pesa deposits and withdrawals — written as a
library whose behaviour is stated in contracts and proved with Verus.

- `src/` is the verified library. Each module states, in `requires` and
  `ensures`, what its functions return for every input, and holds the laws
  that relate several of them (settlements pay back what was staked, a
  rollback undoes a vote, friendships stay mutual, marking messages seen
  clears them, a stake never overdraws a balance, ...). Calls into `bson`,
  `sha2`, `rand`, `uuid`, `chrono` and `std` go through small trusted
  wrappers whose contracts are documented next to them.
- `tests/` runs the library on concrete values.
- `app/` is the thin layer around it: reading the environment, signing
  login tokens, reading payment callbacks off the wire, and the figures that
  are computed in floating point.
