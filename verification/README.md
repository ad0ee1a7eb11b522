# aerial

A command-line music player that resolves YouTube videos and SoundCloud
tracks to audio streams and plays them through `ffmpeg` and `play`.

- `src/` is the verified library (Verus): text utilities, the YouTube
  signature cipher (`signature`, `tokens`), HTML script extraction (`dom`),
  the incremental stream scanner (`snitch`), regular expressions over the
  `regex` crate (`pattern`), and the decisions taken while resolving a song
  (`youtube`, `soundcloud`, `song`).
- `app/` is the program around it: HTTP requests, JSON decoding, the
  playback processes and threads, and the dubtrack.fm room watcher
  (`--dubtrack ROOM`).
- `tests/` exercises the library on concrete inputs.
