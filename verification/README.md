# cachix

A client for Nix binary caches. The library in `src/` holds what the client decides
and computes, with contracts that Verus proves. The program in `app/` reads and writes
files, talks to the service and runs commands, and leaves the decisions to the library.

- `src/text.rs`: strings as sequences of characters.
- `src/crypto.rs`: digests, signatures and base64 of the crates that compute them.
- `src/nix/`: base 32, signing keys, fingerprints, store paths and questions to the store.
- `src/nixconf/`: nix.conf, NixOS modules and netrc, and what holds across operations.
- `src/config.rs`: the configuration and the credentials for a push.
- `src/api/`: messages, requests and responses of the service.
- `src/push/`: compression, what is published of a path, and multipart uploads.
- `src/daemon.rs`, `src/deploy.rs`, `src/import.rs`, `src/doctor.rs`: the push daemon,
  deployments, imports and the doctor, as steps from what happened to what is done next.
- `src/cli.rs`, `src/commands.rs`: what the commands decide.
- `tests/`: the library on concrete values.
