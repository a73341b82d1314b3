# lite_runtime

The core of the LiteOS graphical runtime and of its Linux user ABI layer, written
and proved in Verus. The library decides; system calls, files, decoders, fonts
and floating-point arithmetic stay around it.

## Layout

- `src/` is the verified library.
  - `uapi/`: request layouts, replies and checks of the kernel interfaces: DRM
    and VirGL, evdev, ALSA playback, kernel events, descriptor passing, sessions.
  - `tree`, `style`, `styled`: the committed host tree, computed styles, and the
    styled tree that is laid out.
  - `color`, `gradient`, `shadow`, `border`, `overflow`, `transform`, `range`,
    `image`, `layout/`: the values of CSS properties. Numbers are kept as written
    or as bit patterns.
  - `paint/`: the paint walk, stacking order, hit regions, form controls, boxes,
    text runs and the assembly of a frame.
  - `retained/`, `damage`: what two frames differ in, and what has to be painted.
  - `raster`, `clip/`, `kernel`: pixel planes, clips and blurs.
  - `font/`, `lru`: text policy, the glyph atlas and bounded caches.
  - `input/`, `keymap`, `text_control`: pointer and key routing, editing.
  - `scene`, `gpu_list`: what is handed to the compositor.
  - `host/`: the native operations of a session, display events and files.
  - `audio/`: media sources, sample queues and the media worker.
- `tests/` runs the library on concrete values.
- `app/` is ordinary Rust: system calls, I/O, decoding, shaping and layout.

## What is proved

Every public function states what it returns or changes for every input it takes.
Properties that span functions stand as public proof functions beside them: what
is written is read back, what is undamaged stays, groups and clips balance, no
descriptor is lost, caches stay within their capacity, input regions form a forest.

What outside crates and `std` compute inside the library is stated in the
contracts of a few private functions marked `external_body`, each with a doc
comment that names the call: CSS tokens and colors, PNG frames, JSON strings and
UTF-8 text.
