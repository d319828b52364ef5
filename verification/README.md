# code_lens

The code lenses of a text editor, verified with Verus.

- `src/lens.rs`: lenses, their kinds and titles, and their grouping into lines
- `src/cache.rs`: what an editor remembers of its lenses, buffer by buffer
- `src/refresh.rs`: the steps of a refresh while it is outside the editor
- `src/editor.rs`: switching lenses, and the steps of a refresh in the editor
- `src/render.rs`: the elements of a drawn line, and what a click does
- `src/position.rs`, `src/ids.rs`, `src/text.rs`: positions, numbers and strings
- `app/`: runs the library on top of an editor that implements its `Host` trait

The library decides; `app/` waits, asks language servers, draws and inserts
blocks, and reports back. What the library states of itself as a whole stands in
the `law_` functions. It trusts one function of the standard library,
`str::to_lowercase`, with the contract given in `src/text.rs`.
