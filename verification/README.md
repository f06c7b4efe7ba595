# On Air Record

An audio broadcast and DVR service: it records an input device into fixed-length PCM segments,
indexes them in SQLite, and serves a browser control room with a timeline, bookmarks, exports and
update notices.

- `src/` is the library, verified with Verus: frame building, peak envelopes and their rendering,
  segment layout and seeking, WAV headers, configuration, settings, versions and updates, account
  rules, and the wire payloads. Each public function states what it returns in its contract, and the
  laws that relate several functions are public proof functions.
- `app/` is the program around it: command line, environment, SQLite, the audio host, and HTTP.
- `tests/` runs the library on concrete values.

Paths are handled as text joined with `/`, which every supported platform accepts, and compared
component by component as a Unix path is.
