# roccat-vulkan-rgb

A tool that gives the keys of a ROCCAT Vulkan Pro TKL keyboard their colours, and reads back the
colours that it has given. Its logic is a library verified with Verus.

- `src/` is the library: key names, the tracked state, commands, device frames, the key editor and
  its templates. Every function states what it returns; proof functions whose names begin with
  `law_` state what holds of several functions together.
- `app/` is the program around it: the command line, the files, the HID device, the editor's window
  and the processes that listen to the keyboard.
- `tests/` runs the library.

What is taken on trust is stated at the items that call outside code: `String::push` in
`src/text.rs`, the key names of `evdev` in `src/input.rs`, and the TOML reader in
`src/template.rs`.
