# live_bet

The logic of a property listing, search and live auction site, verified
with Verus, and the web application around it.

- `src/` is the library, checked by Verus:
  - `models/search.rs`: the word hash, the feature-hashing embedding of a
    text (weights kept in quarters), listing descriptions, and laws about
    the embedding (total weight, short words, case).
  - `models/property.rs`: listings, the bedroom pages and the embedding
    backfill.
  - `models/user.rs`: users, password hashing and verification with bcrypt.
  - `handlers/`: the decisions of the request handlers: rendering outcome,
    the signed `user_id` session cookie, sign-in and sign-out, listing
    forms, sign-up and search queries.
  - `text.rs`: the std string operations used, and decimal notation with
    its parse/print round trip.
- `app/` is the axum server: routes, database queries, templates, and the
  floating-point normalisation of embeddings.
- `tests/` runs the library.
