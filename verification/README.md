# SP

The rules behind a photo culling program, as a library that Verus verifies.

A shoot leaves thousands of files: a RAW and a JPEG file for every shot. The program
finds them, shows previews, and lets one keep, reject and rate shots. Originals are
only ever read.

## Layout

- `src/` is the library. Every function has a contract, and every contract is proved.
  - `text`, `filepath`: characters and paths
  - `pairing`: which files belong to one shot
  - `preview`, `frame`: the JPEG previews in a file, and which of them can be decoded
  - `exif_doc`, `exif_detail`, `af`, `datetime`: what the camera recorded
  - `hash`, `indexer`: scanning a folder
  - `image_io`, `picture`, `analyze`, `blink`: pictures, and what is wrong with them
  - `thumb`, `cache`: thumbnails
  - `filter`, `facets`, `marks`, `bursts`: looking at the library and marking it
  - `placeholders`: that every query has as many placeholders as values
  - `agreement`: that counts, filters and pages agree
  - `export`: copying photos, and the list of them
  - `db`, `paths`: where the library is kept, and what is done when it does not open
- `tests/` runs the library, with a database in memory where queries are concerned.
- `app/` is the program: the window, the disk, the database, and the arithmetic in
  floating point.

Public proof functions whose names start with `law_` state what holds of the library
as a whole.

Functions of other crates, and of the standard library where Verus does not know them,
are called through small wrappers. The comment above each says what is taken for
granted about the function behind it.
