# r2sleigh

The verified core of a binary analysis toolkit.

- `il`: address spaces, varnodes and operations of the intermediate language,
  and columns for scanning long operation streams.
- `conc`: a concrete executor. It runs one operation at a time over byte slabs
  that the caller keeps; whatever it cannot run exactly, it refuses.
- `userops`: user-defined operations, numbered as processor descriptions declare
  them.
- `ssa`, `ast`, `fold`: folding of operations in static single assignment form
  to C statements. Folding reads plain tables: what analysis found, what callers
  passed in, and what the passes beside it answered. Its rules need one another's
  answers; `fold::levels` says how one asks another, and how a name that leads
  back to itself is answered. `fold::kept` holds the answers that are given again.
- `text`: strings as sequences of characters.

Every function in `src/` is verified against its contract. What holds of several
functions together is stated as public proof functions, next to the functions it
speaks of or in the `laws` modules.

`app/` reads description files from disk, keeps the answers that the library gave
about them, and holds copies of the library's types that can be serialised.
