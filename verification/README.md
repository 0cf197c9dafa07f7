# dpc_lib — design parity checks

`dpc` compares a design reference (a Figma frame, a web page or an image)
with an implementation and reports how closely they match: pixels, layout,
typography, colour and text content, with a pass/fail verdict against a
threshold.

## Layout

- `src/` — the library, verified with Verus. It holds the decisions of the
  tool with their contracts: reading inputs and options (`resource`,
  `viewport`, `settings`, `selectors`, `cli`), pairing and grouping
  (`layout`, `text_match`, `cluster`), the issue list and summary
  (`issues`, `summary`), text normalization (`content`, `typography`,
  `text`), errors and output (`error`, `output`, `ansi`), JSON field
  look-ups (`json`), images as request text (`encoding`), and the rules around the
  Figma API, the Playwright helper and the code generators (`figma`,
  `playwright`, `browser`, `codegen`).
  Calls into `url`, `serde_json`, `base64` and `tokio` stand behind small trusted
  wrappers whose contracts are documented where they are declared.
- `app/` — the command line around the library: argument parsing, files,
  HTTP, the browser process, images and everything computed in floating
  point (image statistics, scores, colour distances).
- `tests/` — tests of the library.

Laws that span several functions are public proof functions, such as
`viewport::lemma_viewport_text_round_trip`,
`metrics::lemma_kind_name_round_trip`, `cluster::lemma_clusters_partition`,
`layout::lemma_pairing_one_to_one`,
`text_match::lemma_label_matching_partition`,
`selectors::lemma_selector_list_normal`,
`ansi::lemma_pretty_plain` (for every kind of terminal text) and `settings::lemma_defaults_are_valid`.
