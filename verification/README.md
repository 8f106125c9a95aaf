# sagens

The host-side library of the sagens sandbox daemon: BOXes (persistent
sandboxes backed by a libkrun VM and a workspace disk), the websocket API
that manages them, the images guests boot from, and the checks and
diagnostics around launching a VM.

`src/` is the library, written in Verus: every function carries a contract
and is proved against it, except the small trusted wrappers around calls
into outside crates (`uuid`, `base64`, `sha2`, `flate2`, `tar`, `zstd`,
`sequoia-openpgp`), whose contracts state what those crates do.
`app/` holds what Verus does not see: files on disk, the clock, standard
error, the JSON forms of records, and the OpenPGP signature check, whose
helper trait only `app/` can implement.

## Modules

- `config`: runtime configuration and its validation; kernel formats.
- `boxes`, `box_lifecycle`, `box_store`: BOX settings, their limits on this
  host, the life of a BOX record, and where records are kept.
- `box_api`, `session`, `client_state`: who may send which request, how a
  connection authenticates and answers, and how a client routes what comes
  back.
- `protocol`, `guest_rpc`, `guest_transport`: commands and shells in the
  guest, and the host side of the guest agent's protocol.
- `runtime`, `host_log`: sandbox sessions, the pool of warm run directories,
  boot failure diagnostics, and the daemon log.
- `images`, `alpine`, `packages`, `digest`, `paths`: VM images, where
  Alpine comes from and which certificate signs it, package resolution,
  SHA-256 checks, and paths as text.
- `bundle`, `daemon`, `hardening`, `terminal`, `private_fs`: embedded
  assets, managed and embedded daemons, secure-mode host hardening, the
  client terminal, and private files.
- `archive`: gzip, tar and zstd data as bytes, and the search for one
  member of a gzipped tar archive.
- `text`, `textmap`, `ordering`, `ids`, `codec`, `error`: text, maps keyed
  by text, listing order, UUIDs, base64 and SHA-256, and errors.

Tables keyed by text (`textmap::TextMap`) are a vector of entries whose
keys are unique, with that invariant proved: vstd states what `HashMap` and
`BTreeMap` do only for key types known to obey its key model
(`obeys_key_model`, `key_obeys_cmp_spec`), and nothing establishes that
for `String` (vstd's `StringHashMap` takes it as an assumption), so a
std map keyed by `String` would come with no usable contract.
Tables keyed by ids (`runtime::SessionRegistry`) use vstd's
`HashMapWithView` over `u128`.
