# enr

Credit escrow for one account, and the gated crossing from credits to fiat spend.

- `ledger`: amounts, time, the credit lifecycle, and `ReservationLedger`, which reserves,
  commits and releases credits. `ledger::model` is the ledger as a mathematical value,
  `ledger::laws` states what holds across operations: above all that
  `spendable + reserved + consumed == funded`.
- `fiat`: the three gates a spend passes. `policy` caps spends and keeps allow-lists, `book`
  keeps ledger, policy, open spends and the audit trail together, and `bridge` adds the payment
  rail, a trait for its users to implement. The `laws` modules state what holds across
  operations: `policy_laws` of the policy, `laws` of the books, `window_laws` that spent and
  promised credits stay within the window cap together and come out of the spendable pool, and
  `trail_laws` that each spend goes to the rail at most once and is told in order on the trail.
- `text`: numerals and owned strings in contracts.
- `app`: the spend records with serde derives, converted to and from the library's types.

Amounts are counted in 64 bits, and sums stop at the largest amount. Every operation keeps the
pools balanced with such sums; as long as all deposits together can be counted, the balance is
exact.
