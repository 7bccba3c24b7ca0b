# imgview

A lightweight, Picasa-style image viewer, with its logic in a library verified
with Verus.

- `src/` — the verified library:
  - `paths` — file names and extensions read from a path's text, and which
    extensions are offered as images;
  - `text` — character-level helpers and the middle-ellipsis used for captions;
  - `listing` — which folder entries are shown, in what order;
  - `budget` — the memory budget for animations and its override;
  - `anim` — frames, delay clamping and the budget-keeping frame collector;
  - `picture` — decoded images with their size, rotation, and fitting to the
    GPU's texture limit (through the `image` crate);
  - `viewer` — the viewer's state: folder, current image, frames, rotation,
    thumbnails and status line;
  - `input` — keyboard shortcuts.
- `app/` — the window (`eframe`/`egui`), file dialogs (`rfd`), file and thread
  work, and the floating-point view transform.
- `tests/` — tests of the library.
