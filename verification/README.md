# keygen

Key and password generation for a hardware key-ceremony tool, verified with Verus.

- `src/generators.rs`: generator types, their limits and entropy figures, and the
  generators (password, PIN, passphrase, hex, base64, WPA key), each specified
  exactly as a function of the TRNG words it consumes, with laws on the shape of
  every key.
- `src/rng.rs`: uniform draws (rejection sampling), bytes, picks and Fisher-Yates
  shuffles over a finite supply of TRNG words.
- `src/encoding.rs`: upper-case hex and padded base64.
- `src/app.rs`: the screen state machine and its invariant.
- `src/ui.rs`: strength rating, text wrapping and list previews.
- `src/storage.rs`: the saved-key record.
- `app/`: the platform side (TRNG reads, PDDB vault, drawing) around the library.
