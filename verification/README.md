# tether

The decisions of a remote desktop, verified with [Verus](https://github.com/verus-lang/verus).

`src/` is a library of pure decisions with contracts:

- `translator`, `keymap`: what the client sends for the events of its window.
- `uinput`, `enigo_backend`, `inject`, `modifiers`, `held`, `plan`, `evdev_keys`, `key_set`,
  `single`: what the host does with them, as plans of device events and of changes in what is held.
- `pairing`, `pake`, `crypto`: pairing by PIN.
- `store`, `sorted_map`, `paths`: whom a device trusts, and where that is kept.
- `ipc`: what an engine and its shell say to each other.
- `dmabuf_export`, `surfaces`, `memory`, `formats`, `modifier_query`: DMA-BUF export, call by
  call, with everything given back where a call fails.
- `convert`, `bridges`, `iosurface`, `frame_dump`: which frames a converter takes, how much work
  they are, and where their planes lie.

`app/` carries the decisions out: files, pipes, virtual input devices and the GPU. `tests/` runs
the library on concrete values.
