# karukan input-method engine core (verified)

The core of a Japanese input method: romaji composition, kana-kanji
conversion candidates, Shift+Arrow selection with partial re-conversion,
F6-F10 direct conversion and the alignment of a converted surface against
its hiragana reading. Every function is specified with `requires` /
`ensures` and proved with Verus.

## Layout

- `src/kana.rs`: character-level kana and width conversions.
- `src/text.rs`: `String` and character-vector helpers.
- `src/romaji.rs`: the romaji rule table and the incremental reader.
- `src/buffer.rs`: the composition buffer (settled reading, pending keys,
  caret, selection) over a plain-value model.
- `src/align.rs`: aligning a converted surface with its reading, and
  mapping a surface range back to a reading range.
- `src/candidates.rs`: candidates, the paged candidate list, deduplicating
  builders.
- `src/sources.rs`: the learning cache, dictionaries, rewrite tables, the
  symbol-description table and the kana-kanji converter table.
- `src/keys.rs`: key events.
- `src/engine/`: the state machine (Empty, Composing, Conversion), split into
  composing, conversion, caret/selection, direct conversion and partial
  conversion, with the laws of candidate building in `laws.rs`.

The neural converter itself is not part of this crate: the engine consults a
`KanjiConverter` table that the library's user fills, one list of
conversions per katakana reading. The surrounding text of the document is not
passed to it. Descriptions of symbol candidates likewise come from a
`SymbolTable` that the library's user fills.
