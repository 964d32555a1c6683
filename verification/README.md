# mugen

Runtime self-protection checks for Android applications (root, emulator,
debugger, hook, proxy and repackaging detection), split in two:

- `src/` is the verified library: every decision the detectors make, over
  plain values (property values, file contents, command output, probe
  outcomes), with contracts proved by Verus. Detectors that read the device
  step by step are ordered scans (`scan.rs`): the library says which probe
  comes next and when the answer is known.
- `app/` is the JNI surface and the device reads: commands, files, system
  properties, JNI calls and the floating-point classifier.

Modules of the library: `text` (search, trim, words, splitting), `hexcodec`,
`cipher`, `integrity` (repackaging and certificate pinning), `scan`, `root`,
`emulator`, `debug`, `hook`, `network`, `general`, `props`, `security`,
`pattern` (regular expressions) and `ml` (categorical encoding).
