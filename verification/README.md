# hacss

A hybrid post-quantum messenger core, verified with Verus: PQXDH key
agreement, a triple ratchet (a Diffie-Hellman double ratchet combined with a
sparse post-quantum ratchet driven by an ML-KEM braid), a relay server that
holds prekey bundles and message queues, and clients on top of them.

## Layout

- `src/util`: keys, message types and their byte encodings, a map keyed by
  user identifiers, byte helpers, the message encryption (AES-256-CBC with
  HMAC-SHA-256), and the wrappers of the cryptographic primitives.
- `src/kdf_chain`: the chain and root key derivations.
- `src/double_ratchet`: the Diffie-Hellman ratchet state and its send and
  receive steps, with skipped message keys.
- `src/ml_kem_braid`: chunk encoder and decoder, the authenticator, the
  braid state machine, and the proof that its two parties agree on epoch keys.
- `src/spqr`: the sparse post-quantum ratchet over the braid.
- `src/triple_ratchet`: both ratchets combined into each message's key.
- `src/pqxdh`: key bundles, the initial message and its answer.
- `src/server`, `src/client`: the relay and the users.

Every operation states in its contract what it returns and how the state
changes, as relations over spec functions; the laws (`law_*` proof
functions) state what holds across operations: PQXDH key agreement; the
prekeys of a fresh key bundle, and those added later, passing the
initiator's signature check; the
first message of a session reaching the responder's client; delivery of
in-order, late and reply messages by the double ratchet, and by the triple
ratchet where the braids agree on the epoch; in-order and out-of-order
delivery within an epoch of the sparse post-quantum ratchet; the braid's
header exchange, and both braid parties reaching the same key in every
epoch over any run of exchanges from fresh braids; server delivery;
one-time prekeys handed out once.

## Trust boundary

The cryptographic primitives (libcrux HKDF, HMAC, SHA3, X25519, ML-DSA,
ML-KEM, ChaCha20-Poly1305; AES-256-CBC from `aes` and `cbc`), randomness
(`rand`) and zeroization (`zeroize`) are called through small
`external_body` wrappers whose results are named by uninterpreted spec
functions. Two of those wrappers also state a correctness fact of their
algorithm: the ChaCha20-Poly1305 and the AES-256-CBC decryption wrappers
say that decrypting what the matching encryption made gives the plaintext
back, and that a refused input is no encryption of any plaintext. The
other correctness facts of the primitives (X25519 agreement, ML-KEM and
incremental ML-KEM decapsulation, ML-DSA verification, and AEAD opening
over the named encryption results) enter the laws only as explicit
hypotheses.
