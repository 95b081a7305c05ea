# media_album

A photo and video album server. The folders under a working folder are
albums (a `pwd.txt` in one holds its password); the server lists them with
four thumbnails each, shows an album's media and sub-albums, and sends media
files (with byte ranges and cache validators) and WebP previews.

- `src/` is the library, verified with Verus: what kind of media a path
  names, where caches live, the album tree and its thumbnails, the answers to
  album and media requests (password checks included), `Range` parsing and
  file-response plans, entity tags, HTTP dates, file-name dates, size
  formatting, gallery thumbnails, and the reading of Exif shooting
  parameters. `src/laws.rs` states and proves the properties that hold across
  functions.
- `tests/` runs the library against concrete values and against the outside
  crates it calls.
- `app/` is the server around it: the HTTP handlers (axum), scanning the
  folders, the caches on disk, preview encoding (image, webp, libheif,
  ffmpeg) and JSON.
