# cloudencryptor

A command-line client that keeps files on a OneDrive account encrypted with
AES-256-GCM. The key is the lowercase hexadecimal MD5 digest of a password;
each uploaded file is stored as a 12-byte random nonce followed by the
ciphertext and its tag, in the drive folder `/encrypted`.

Layout:

- `src/` — the verified library (Verus):
  - `text` — whitespace trimming and decimal rendering;
  - `encryption` — sealing and opening of file contents (AES-256-GCM through
    `aes-gcm`), with the round trip stated in the contract of `decrypt`;
  - `key` — key derivation (MD5 through `md5`) and the choice of password;
  - `credentials` — where the refresh token and password are kept;
  - `remote` — drive paths (checked with `onedrive-api`) and download paths;
  - `drive` — the session, the login-redirect handler and the login flow;
  - `cli` — command parsing and the help menu.
- `app/` — the program: terminal, files, HTTP, the OneDrive API and the
  local login server, driven by the library's decisions.
- `tests/` — tests of the library against concrete values and against the
  outside crates and `std`.
