# lan_mouse

The clipboard and input-emulation core of a software KVM switch, verified with
Verus.

- `src/` is the library. It performs no input or output: its parsers and state
  machines take bytes, messages and events, and answer with values and actions.
  Every function states what it returns: exactly, but for the file name in a
  path that Unix and Windows read differently. Digests, converted images and
  the lower-case forms of letters beyond ASCII are stated by name: as what the
  function that is trusted with them makes of its argument. The laws that hold
  of several functions together are public proof functions whose names begin
  with `law_`.
- `app/` connects the library to sockets, files, processes and desktops.
- `tests/` runs the library on concrete values.

What is taken on trust is small: UTF-8 checking, appending to a string, lower
case and file names of the standard library, SHA-256 of the `sha2` crate, and
the image conversions of the `image` crate. Each stands in one function with the
contract that it is trusted to keep.
