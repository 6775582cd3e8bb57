# ize_service_api

An account and role service (register, login, profile, user listing, role management)
whose decisions are verified with Verus.

- `src/` is the verified library: pagination arithmetic, time formatting (chrono),
  password hashing and checking (argon2), token claims and lifetimes, the bearer-token
  guard, and every decision of the auth, user and role services, written as steps that
  take what the database returned and say exactly what is answered.
- `app/` is the HTTP server around it: axum routes and handlers, the OpenAPI document
  (utoipa), the PostgreSQL queries (diesel), token signing and checking (jsonwebtoken),
  configuration from the environment, and the JSON copies of the library's types.
- `tests/` runs the library on concrete values.
