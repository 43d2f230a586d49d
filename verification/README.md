# fido_mds3_attestation_ca

Attestation trust anchors for WebAuthn servers from the FIDO Metadata
Service (MDS3) blob, verified with Verus.

- `src/` — the library. Its functions carry contracts that Verus proves,
  except the wrappers in `ext/`, whose contracts are trusted statements
  about the outside crates they call:
  - `parser` — the JWT blob: split into three parts, payload decoded
    (URL-safe Base64, UTF-8, JSON), one record per attestation root
    certificate of each entry (PEM, SHA-256 fingerprint, validity period),
    or a placeholder record.
  - `trust` — device identifiers (AAGUID, else a version-5 UUID of the
    AAID, else nil), the FIDO-certification filter (latest status report)
    and the attestation CA lists, with the laws that relate them.
  - `loader`, `downloader`, `location` — the decisions of loading with
    fallbacks, of downloading, and of the per-user blob location.
  - `text` — byte splitting, white-space trimming, ordering, decimals.
  - `error`, `types`, `constants` — the data of the library.
  - `ext` — the trusted wrappers and names for the outside crates.
- `tests/` — scenarios on concrete values.
- `app/` — the command-line tool and the file, network and caching work.
