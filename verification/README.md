# GreenIEM

A shop for in-ear monitors, DAC/AMP dongles and audio accessories: an API
server (Axum, MongoDB) and a storefront with an administration console (Yew).

- `src/` is the verified library (Verus): the records the two sides exchange,
  the validation rules, order pricing from the catalogue, the per-address rate
  limiter with its arithmetic captcha, administrator setup and login with
  Argon2id password hashes, session tokens, the shopping cart, money
  formatting, and the decisions the pages make. Contracts are stated over `Seq`, `Map` and
  integers; the laws that span several calls are proof functions beside the
  code they speak of.
- `app/` is the program around it: the HTTP handlers, MongoDB access, the
  browser components, and the JSON copies of the
  library's records.
- `tests/` exercises the library on concrete values.
