# toolsite

A place to publish small sites: single pages, bundles of files, and apps with a
sandboxed handler of their own, a database, settings, scheduled jobs and
accounts with per-app gates. Agents publish through tools, people through the
command line.

The logic is a Verus library: what a path means, who may open it, what an
upload may write, which requests an app may make, what a sign-in or an
invitation does to the accounts, what every page says. Each function states in
its contract what it returns, and Verus proves it.

## Layout

- `src/` is the library, verified as a whole.
  - `text`, `order`, `table`, `encode`, `reply`, `ui`: texts, order, maps with
    text keys, escaping, answers, the shared look of pages.
  - `crypto`: hashing, sealing, encoding and chance.
  - `config`: settings from the environment.
  - `content/`: slugs, bundles, what is stored, what is served.
  - `accounts/`: accounts, sessions, grants, invitations; `laws` holds what is
    true of them together.
  - `platform/`: the owner's pages, uploads, tools, manifests, jobs, settings,
    the trash, and how what is published meets what is served.
  - `runtime/`: statements and rows, the schema ladder, outbound requests, the
    cache of compiled handlers.
  - `cli/`: the commands, a deploy, and what is printed.
- `tests/` runs the library on concrete values.
- `app/` is ordinary Rust around it: sockets, files, databases, the engine that
  runs handlers, the command line.

What the library takes from other crates on trust stands in functions marked
`external_body`, each with a comment on what is claimed of the crate.

## OAuth

Beside `OAUTH_CLIENT_ID` and `OAUTH_CLIENT_SECRET`, `OAUTH_CLIENT_DOMAIN` (or
`TOOLSITE_OAUTH_CLIENT_DOMAIN`) names the client's domain. Codes are sent to that
host and to hosts below it only; where it is not set, to none.
