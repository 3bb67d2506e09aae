# recombox_subtitle_provider

Looks titles up on subdl.com, reads the chapter and subtitle listings of
their pages, and keeps a local store of installed subtitle files.

- `src/` is the library, verified with Verus: the lookup URL and the reading
  of the lookup answer (`search`), the chapter list of a title page
  (`get_chapters`), the subtitle listing of a chapter page and the retry
  policy for fetching it (`get_subtitles`), and the rules of the subtitle
  store — which extracted files are subtitles, the names and titles they are
  installed under, how ids are stored in and read back from the database
  (`manage_subtitle`). Pages are queried with `visdom`, character references
  decoded with `html_escape`, ids drawn with `snowid`; these calls sit behind
  small trusted wrappers in `html.rs`, `text.rs` and
  `manage_subtitle/install_subtitle.rs`.
- `app/` performs the I/O around it: HTTP requests (`reqwest`), archive
  download and extraction (`zip`, `walkdir`), the SQLite store
  (`tokio_rusqlite`), and serialisable copies of the data types (`serde`).
- `tests/` exercises the library on concrete pages, answers and rows.
