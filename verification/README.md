# mtgbrain

Magic: The Gathering card data (MTGJSON) in a queryable SQLite database that an
LLM agent drives with SQL and full-text search, plus a local cube editor.

The rules live in the `mtgbrain` library (`src/`), written in Verus: each
function states what it returns in `requires`/`ensures`, and the laws that tie
functions together (a listed card is counted, an added card is listed, escaped
text holds no markup, a read of the event log gives back the last choice, ...)
are proof functions that Verus checks.

- `src/` — the verified library: the read-only SQL gate and search planning,
  result tables (table / Markdown / CSV), the cube-list file format, the editor's
  routes and save rules, card-frame and colour rules, HTML text of card faces,
  URL and path handling, CubeCobra export, maybeboard modules and the GenAI
  event log's reads.
- `app/` — the program around it: command line, downloads, building the
  database, SQLite access, the editor's HTTP server (card list and edits,
  adding/removing cards, the crop editor's source list, the GenAI event log:
  history, dashboard, choose / unchoose / reprompt).
- `tests/` — tests of the library on concrete values.

The card renderer is not part of this program: drawing card images (headless
Chrome), image processing and cropping (floating-point geometry), and the
proxy, Scryfall and image-generation services. The editor routes that need it
(`/api/render/…`, art fetch/upload/crop/reset, GenAI generation) answer with an
error. The decisions the renderer makes on plain data are in the library and
verified: frames, the P/T box, colour indicator, rules text HTML, the split-card
page, the art step for a render (`artpick::art_step`), the crop editor's
sources (`artpick::art_meta_of`), proxy order, printings and cache paths. The
`image` crate is used only to measure a proxy's DPI; `base64` and `resvg` are
listed for the renderer and not used.

The JSON the program reads (request bodies, stored overrides, art sidecars,
cached Scryfall metadata, the proxy index, the CubeCobra listing) is read by
the library through JSON pointers; only float values (crop boxes, mana
values) and the MTGJSON build input are read in `app/`.

Calls into outside crates (`sha2`, `serde_json`) and a few std functions sit
behind small trusted wrappers whose contracts name their results.
