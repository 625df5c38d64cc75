# aerogram

The verified core of the Aerogram mail server, written in Verus.

- `src/` is the library. Every function in it is verified:
  - `model`: tenant, mailbox, email and message identifiers, addresses,
    envelopes, headers, MIME types and the common error enum;
  - `config`: the configuration model and its cross-section validation;
  - `api`: the webhook signer (`t=<timestamp>,v1=<hex HMAC-SHA-256>`);
  - `dkim`, `dkim_canon`, `base64`: DKIM signing with relaxed
    canonicalization (RFC 6376, RFC 8463);
  - `text`: decimal and hexadecimal rendering;
  - the remaining modules hold the data types, constructors and error
    messages of the SMTP, IMAP, JMAP, queue, store, search, spam,
    SPF/DMARC/ARC, events, auth, admin and server parts, and the command
    line.
- `app/` is the `aerogram` binary: command-line parsing, reading the TOML
  configuration file, the HTTP routers and the asynchronous storage and
  event interfaces.
- `tests/` exercises the library on concrete values.

Cryptography is delegated to the `hmac`, `sha2`, `ed25519-dalek` and `rsa`
crates through a few trusted wrappers whose results are named, so the
contracts of the signing functions state exactly which bytes are hashed and
signed and how the results are encoded.
