# dianju_wasm_seal

Electronic seals for PDF and OFD documents, with the signing logic verified
in Verus.

- `src/` — the verified library: DER encoding and decoding, PKCS#7 and
  GB/T 38540 (SES) structures, the mock signer and its keys, the PDF byte-level
  signing pass (`/ByteRange` and `/Contents`), the seals already in a PDF,
  OFD signature files and the OFD package parts (page list, resources,
  annotation index), font code conversion (ToUnicode CMaps read and written,
  TrueType cmaps, CID remapping), PNG decoding for the seal picture, and the
  engines' state (document, signing, UKey, settings).
  Calls into outside crates (SM2/SM3/SM4, SHA-256, MD5, base64, hex, zlib,
  X.509, Unicode normalisation, XML events) go through small trusted wrappers
  whose contracts name their results.
- `tests/` — tests on concrete values.
- `app/` — the browser side: the wasm-bindgen interface, rendering through
  PDFium and the canvas, reading OFD page content, and the `lopdf` and ZIP
  work around the library.
