# PebbleCrypt

A small desktop app that encrypts files into password-protected `.age` files
and decrypts them again, using the age library for all cryptography.

The crate is written in Verus. `src/` is the verified library:

- `naming`: file stems and extensions, the output name wanted for each mode,
  collision suffixes such as `notes (decrypted).txt`, joining names onto
  folders, and the 255-unit name limit.
- `plan`: the planner that gives every selected file a free output path that
  no other file of the batch claims (compared without letter case).
- `batch`: a batch run: first failure stops it, completed outputs are kept,
  and a clean cancellation is never confused with a failure.
- `transfer`: the steps of processing one file as a state machine; output is
  published only by a final no-clobber commit and the temporary file is
  discarded on every failure.
- `stream`: cancellation checks, the copy loop's decisions and the 64 KiB
  limit on age headers.
- `cipher`: setting up age's passphrase encryption and naming its failures.
- `password`: generated passwords (24 characters from a 64-character
  alphabet) and wiping secrets.
- `session`: the window's state apart from drawing: queue, password fields,
  validation and the status of a running batch.
- `size`: the sizes shown in the window, computed exactly.

`app/` holds the window (egui/eframe), file dialogs (rfd) and all file-system
work; it drives the verified planner, batch and transfer machines.
`tests/` exercise the library on concrete values.
