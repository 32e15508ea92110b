# wie_jni

The Android bridge of the WIE emulator: JNI entry points that load a
KTF/LGT/SKT/J2ME app, run its tick loop, draw its frames into a window
surface, play its audio and keep its files and record stores.

- `src/` is the verified library (Verus): storage locations and record ids
  (`storage`, `paths`), read/write sizing and the file model (`file_ops`),
  the frame blit (`screen`), the key-code table (`keys`), log-line rendering
  (`logline`), app-file dispatch (`app_file`), the session state machine
  (`session`) and decimal text (`text`).
- `app/` is the JNI/NDK/emulator glue around it, in ordinary Rust.
- `tests/` runs the library on concrete values.
