# Window minimization

The part of a scrolling window manager that minimizes windows and restores them, with the
transitions between a window and its Dock target. Written in Verus: every function states what it
does in a contract, and the contracts are proved.

- `src/` is the library. `layout` owns all windows; `minimized`, `requests` and `managed` are what
  can be done with minimized windows; `targets`, `prepare`, `minimize_animation`, `advance` and
  `render` are the transitions. `laws` and `transition_laws` state what holds of the whole.
- `tests/` runs the library.
- `app/` is the compositor's side: logical coordinates in floating point, textures, layer surfaces
  and the states that clients are sent.

The calls on a `Layout` require it to be well-formed (`LayoutView::wf`) and keep it so. Callers
that Verus does not see can test this with `Layout::verify_invariants`.

The library does not know where tiles are drawn. What is on screen at the time of an operation is
handed to it as a list (`advance::OnScreen`).

The library is generic over the compositor's own types (`types::Host`): it moves live windows,
rectangles and textures around without looking inside them.
