# static matrix

Fixed-size vectors (`Vector<T, N>`) and matrices (`Matrix<T, R, C>`) whose
elements are stored inline, with the dimensions carried in the type as const
generic parameters. The library is written in Verus and every function in
`src/` is verified against its contract, except the two calls into std in
`src/arrays.rs`, whose contracts restate std's documentation and are trusted.

- `src/vector.rs`: `Vector`, its element-wise `+` and `-`, equality, and
  `VectorChunks`, which hands out a vector's consecutive chunks.
- `src/matrix.rs`: `Matrix`, its constructors (from rows, from a row-major
  array or vector), indexing as `(column, row)`, element-wise `+` and `-`,
  scaling, the matrix product, and equality.
- `src/iters.rs`: iterators over rows and columns, by reference and by clone.
- `src/arrays.rs`: building arrays element by element (through
  `core::array::from_fn` and `<[T; N]>::map`), so that elements can be moved
  and cloned without being `Copy`.
- `src/seqs.rs`: the mathematical models (over `Seq`) that the contracts use.
- `src/sums.rs`: sums folded from the left and their behaviour in a ring.
- `src/laws.rs`: properties of the library as a whole, proved.

Element arithmetic goes through the element type's own `+`, `-` and `*`, as
vstd specifies them (`add_req`/`add_spec` and the like); for the primitive
integers an operation may be performed when it does not overflow.
