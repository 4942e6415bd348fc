# entrusted

The logic of a document sanitizer, verified with Verus. Documents are
converted to images inside a container and back to PDF; this crate holds
what decides how that is done and what is reported about it.

- `src/` is the verified library. Every public function states its result
  in its `requires`/`ensures`; calls into outside crates (zip, cfb, gettext,
  fluent-langneg, which, infer, file-format, base64-lib, bs58,
  percent-encoding, semver) go through small trusted wrappers whose
  contracts say what those crates do.
- `tests/` runs the library on concrete inputs.
- `app/` is the command-line client around the library: argument handling,
  files, processes and serialisation.
