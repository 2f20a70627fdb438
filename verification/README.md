# twine_daemon

The coordinator of a Fiber hold-invoice peer-to-peer market: sellers list CKB
ads, buyers take a slice of an ad, the seller locks the slice in a hold invoice
on the Twine node, and the daemon pays the buyer and settles, or lets the hold
expire back to the seller.

`src/` is the library, verified with Verus:

- `text` — trimming, ASCII case folding, prefix stripping and code-point order
  on character sequences.
- `amount` — decimal amounts with eight fractional digits (shannon for CKB):
  parsing, canonical text, fiat/CKB conversion, hexadecimal forms; with the
  laws that formatting then parsing gives the amount back and that
  normalizing keeps the amount and is idempotent.
- `outside` — the calls into `rand`, `hex`, `sha2`, `base64` and `chrono`.
- `order` — trades, their states and public view, payment proofs, parties,
  the HTTP status and message that answer a refused request,
  preimages and ids.
- `keyed` / `market` — the ad book: ads and trades kept sorted by id, listing,
  creating and cancelling ads, reserving a slice of an ad for a trade.
- `payout` — paying the buyer, then settling the hold: the decision after
  each answer of the Twine node, with the law that the settle follows only
  a `Success` of the payment.
- `flow` — each step of a trade (hold, lock, cancel, fiat proof, release,
  retry, dispute, awards, payout, settle, expiry) as a change of the book.
- `fiber` — what is asked of the Twine node and how its answers are read.
- `health` — configuration, health report, and connecting a user's node.
- `laws` — properties spanning several operations of the book.

`app/` is the HTTP daemon around the library: the axum routes, JSON-RPC to
the Twine node, `market.json` and the proof files, and the loops that wait
on the node between the library's steps.

`POST /trades/:id/cancel` takes `{"from":"lister"|"taker"}`: a trade still in
`WaitingHold` is cancelled through its hold (as `try_cancel`, only while the
hold is `Open`), and the taker of a trade in `WaitingFiat` closes the pay
window, leaving the hold `Received`. `GET /trades/:id` carries `accept_by`
(when the seller locked the hold) and `pay_by` (15 minutes later, or when
the taker closed the window), set by `POST /trades/:id/locked`.
