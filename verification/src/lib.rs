//! The clipboard and input-emulation core of a software KVM switch.
//!
//! Two machines share one keyboard, one mouse and one clipboard. This library
//! holds what has to be right about that, apart from any socket, file or
//! desktop:
//!
//! - [`protocol`]: the messages between two clipboards and their wire format;
//!   [`round_trip`] proves that what is written can be read, and
//!   [`prefix_laws`] that what is cut short cannot. [`wire_laws`] and
//!   [`reading_laws`] state the format byte by byte.
//! - [`transport`]: frames, the handshake and the rules of a session, of which
//!   [`session_laws`] says who is told what.
//! - [`task`]: offers, requests and the data that answers them; [`copy_laws`]
//!   proves that what is copied here can be pasted there, and [`offer_laws`]
//!   what is asked for and what is kept.
//! - [`file_selection`], [`file_sender`], [`file_task`]: file transfers;
//!   [`file_laws`] proves that files arrive intact or not at all, and that
//!   only a whole transfer is put on the clipboard. [`selection_laws`],
//!   [`sending_laws`] and [`receive_laws`] go through it step by step.
//! - [`paths`]: where received files are put, with [`path_laws`].
//! - [`os_linux`], [`os_windows`], [`uri_list`], [`cf_html`], [`html`],
//!   [`image_data`]: what the clipboards of the desktops are given and what is
//!   read off them, with [`desktop_laws`], [`windows_laws`], [`cf_html_laws`]
//!   and [`html_laws`].
//! - [`emulation`]: emulated input devices and the keys that they hold, with
//!   [`key_laws`].
//! - [`bytes`], [`text`], [`scan`], [`digest`]: what the others are built on,
//!   with [`text_laws`].
//! - [`view_laws`] and [`entry_laws`]: what values say is what they hold, and
//!   what one function has made another can take apart.
//!
//! The state machines perform no input or output. They answer each event with
//! the actions to take, and are told what came of them.

pub mod bytes;
pub mod cf_html;
pub mod cf_html_laws;
pub mod copy_laws;
pub mod desktop_laws;
pub mod digest;
pub mod emulation;
pub mod entry_laws;
pub mod file_laws;
pub mod file_selection;
pub mod file_sender;
pub mod file_task;
pub mod html;
pub mod html_laws;
pub mod image_data;
pub mod key_laws;
pub mod offer_laws;
pub mod os_linux;
pub mod os_windows;
pub mod path_laws;
pub mod paths;
pub mod prefix_laws;
pub mod protocol;
pub mod reading_laws;
pub mod receive_laws;
pub mod round_trip;
pub mod scan;
pub mod selection_laws;
pub mod sending_laws;
pub mod session_laws;
pub mod task;
pub mod text;
pub mod text_laws;
pub mod transport;
pub mod uri_list;
pub mod view_laws;
pub mod windows_laws;
pub mod wire_laws;
