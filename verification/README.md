# mermansi

Terminal-native rendering of Mermaid diagrams (and raw JSON) as deterministic ASCII or
Unicode text, as a library whose logic is verified with Verus.

## Layout

- `src/` — the verified library.
  - `lib.rs` — `render_source` and `render_model_with_preview`: option validation, source
    size limit, parsing, the concise/complete output assembly, plain-mode stripping and the
    output limits.
  - `options.rs`, `error.rs` — options with their validation, and the typed errors.
  - `text.rs`, `ansi.rs` — display widths and grapheme segmentation (through
    `unicode-width` and `unicode-segmentation`), terminal-sequence stripping and label
    sanitizing.
  - `canvas.rs` — the character canvas: grapheme placement, stroke merging, boxes and
    lines, rendering.
  - `input.rs`, `engine.rs`, `output.rs` — source detection (Mermaid or JSON), the calls into
    `merman-core`, `merman-ascii` and `serde_json`, and the semantic section. Gantt date
    labels come from `chrono`.
  - `adapters/` — the diagram families drawn by the library: the shared box router
    (`box_geometry`), chart primitives, flowcharts with edge lanes, and the architecture,
    block, C4, class, ER, event modeling, Gantt, git graph, info, Ishikawa, journey, kanban,
    mindmap, packet, pie, quadrant, radar, requirement, sankey, timeline, treemap, tree view,
    Venn and JSON renderers.
- `app/` — the `mermansi` command line: argument handling, bounded reading of the source,
  exit codes, and (under `app/charts/`) the floating-point geometry of the chart families:
  sector and radial drawing for pie and radar charts, point positions of quadrant charts,
  flow totals of sankey diagrams, sibling weights of treemaps and the set ellipses of Venn
  diagrams, handed to the library's renderers.
- `tests/` — tests of the library through its public API.
