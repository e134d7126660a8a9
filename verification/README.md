# webcodex

The decisions of the WebCodex control plane as a verified library: what a
request is answered, which step follows which answer, what is written, counted
and reported, and what is refused. Every function of `src/` carries a contract
that Verus proves; what holds across functions stands there as a proof function
whose name begins with `law_`.

- `src/` is the library. It does no input or output. Where work outside is
  needed between two decisions, a state of the library asks for one action at a
  time and is told what came of it.
- `app/` carries those actions out: files, processes, git, the browser's socket,
  the tools.
- `tests/` runs the library on concrete values.

Calls into other crates stand behind small functions whose contracts are
believed, not proved; the comment above each says what it claims.
