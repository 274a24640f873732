# inkhaven_language

The logic of the `language` command family of a constructed-language
workbench, written in Verus: every function in `src/` carries a contract
that Verus proves it meets.

What the library covers:

- the CSV dictionary import and the CSV, Anki and Typst exports, with the
  laws that tie them together (a CSV field reads back as written; an
  exported dictionary imports back to the same entries);
- the book hierarchy lookups (a language's book, its dictionary buckets,
  where a new word is filed and when it is refused as a duplicate);
- the reports the commands print (doctor, stats, metrics, pairs, gaps,
  audit, scan, listings, ecology, family tree, areal overlay), the prompts
  sent to a language model and the checks on its replies;
- PolyGlot dictionary archives, read through the `zip` crate.

Layout:

- `src/` — the verified library, one module per concern (`lib.rs` lists
  them);
- `tests/` — ordinary Rust tests run against the compiled library;
- `app/` — the thin side that touches files, standard output, JSON/HJSON
  documents and floating-point figures.

Calls into outside crates (`unicode-segmentation`, `zip`) and into parts of
`std` without a Verus specification go through small wrappers marked
`#[verifier::external_body]`; their doc comments say what their contracts
claim.
