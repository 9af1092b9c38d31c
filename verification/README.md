# fig_viewer

The logic behind a viewer and editor for design documents: the layers panel and
its menu, the design inspector, pages and search, texts inside component
instances, the toolbar, and the local server through which outside agents reach
the open canvas.

`src/` is written in Verus. A document is a list of layers, components, variant
sets and animation tracks (`document`, `scene`); every change to it is a list of
operations that record what they replace (`operations`, `apply`). Each command
is a function from the document to such a list, with a contract that says which
list it is or why there is none.

- `text`, `text_search`: texts as characters and as bytes, matching, replacing
- `scalar`, `paint`, `document`, `ids`, `meta`, `keyed`, `sameness`: the data
- `scene`, `content_walk`: walking the tree
- `operations`, `apply`: changing a document, and taking changes back
- `layers`, `pages`, `panel`, `layer_*`: the layers panel and its commands
- `design_*`: the design inspector
- `instance_text`: texts inside instances
- `toolbar`, `switches`, `inspector_components`, `inspector_widgets`, `live_mcp`

What takes measuring comes in as an argument: numbers are kept as the bits of
64-bit floating-point values (`scalar::Scalar`), which the library compares and
clamps but does not add. `app/` holds the arithmetic, the files and the
environment.

The laws are public proof functions whose names begin with `lemma_`;
`layer_undo` and `design_undo` hold those on taking commands back.
