//! The logic of a tool that colours the LEDs of a ROCCAT Vulkan Pro TKL keyboard.
//!
//! - `keys`: the names of the keys, their LEDs, and how the user refers to them.
//! - `state`: the tracked colours of all LEDs.
//! - `command`: the commands of the tool, as changes of the state and lists of actions.
//! - `frame`: the packets of a frame, and the steps that bring it to the keyboard.
//! - `input`: which device to listen to, and what is reported of it.
//! - `editor`: the state of the key editor.
//! - `template`: files with a background colour and the colours of keys.
//! - `color`, `keymap`, `text`: colours, ordered maps and texts that these are made of.
pub mod color;
pub mod command;
pub mod editor;
pub mod frame;
pub mod input;
pub mod keymap;
pub mod keys;
pub mod state;
pub mod template;
pub mod text;
