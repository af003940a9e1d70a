# quorum_trust

A verified library for QuorumTrust, a network in which members govern a
shared folder of documents by vote and sign final documents with FROST
threshold signatures.

- `src/` holds the library, verified with Verus:
  - `governance`: members, proposals and votes (a proposal passes with more
    than two thirds of the active members), the effects of accepted
    proposals, daily request limits, and what is persisted across restarts.
  - `crypto`: member identities and digests, the X25519 + ChaCha20-Poly1305
    channel that carries key shares, and the signing sessions of a
    threshold ceremony.
  - `document`: per-folder registries of tracked documents, unified diffs,
    and where forks and saved diffs go.
  - `network`: gossip messages and their framing, which messages a node
    processes, governance sync between peers, the dealer's plan for a
    ceremony, and the peer table.
  - `rpc`: the rules behind the HTTP API.
  - `strmap`: a map and a set keyed by text that keep insertion order.
- `app/` is the node program: command line, files on disk, chaincraft
  networking, the HTTP server and the FROST rounds (through thetacrypt).
- `tests/` exercises the library.
