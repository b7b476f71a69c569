# tuidom

The engine core of a DOM-style terminal UI library, written in Verus: each
function carries a contract that Verus proves.

## Layout

- `src/` — the verified library.
  - `geometry`, `virtualize` — centering, spacer sums and windows for virtualized
    lists, a Fenwick tree of measured item sizes.
  - `paint_order` — scrollbar thumb geometry, and the order in which a node tree
    paints (siblings by z-index, then document order; every subtree as one unit).
  - `render` — the cell grid with its wide-glyph invariant, text layout into cells,
    where clipped text and edges land, the layers a node paints (fill, edges,
    content with its selection and cursor, border), selection highlight runs,
    frame diffing, and the command plans a terminal flush writes.
  - `event`, `event_loop`, `runtime_event` — key modifiers, targeted events, mouse
    conversion, event coalescing, click detection and scrollbar dragging.
  - `inner`, `panic`, `node`, `headless`, `style`, `performance` — focus contexts,
    handler panic nesting, node views and input display text, screen snapshots,
    style values, frame metrics.
- `app/` — the parts that talk to the terminal through crossterm, the input queue,
  the panic hook, and the floating-point color blending used when painting.
- `tests/` — tests of the library on concrete values.

Grapheme segmentation and display widths come from `unicode-segmentation` and
`unicode-width`; the library calls them through small trusted wrappers whose
contracts name their results.
