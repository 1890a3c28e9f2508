# one_proxy

A small proxy whose wire-level logic is verified with Verus.

- `src/` is the verified library:
  - `socks` — the server side of a SOCKS5 handshake as decisions on the
    bytes received so far, each specified by a spec function over the byte
    sequence. Method selection never reads the client's method list and
    always answers `X'FF'`; the username/password check never reads the
    credentials and accepts only a guard whose username and password are
    both empty; requests are parsed per RFC 1928;
  - `socks_laws` — proved properties of those decisions (the selection
    searches an empty list and so always fails, decisions never
    change when more bytes arrive, a request a client writes is read back,
    and how many bytes the greeting and the credentials steps read);
  - `stream` — the framing of the ONE header and of encrypted messages, and
    the read buffer of the AES-256 stream layer;
  - `protocol` — AES-256 block and ECB codecs over the `aes` and `soft-aes`
    crates, ECB mode and its `0x80` padding stated block by block;
  - `common`, `error`, `text` — the message types, the errors and their
    messages.
- `app/` is the program around it: sockets (monoio, tokio), MessagePack
  (rmp-serde), length-delimited codecs (tokio-util) and the relay loop.
