# screc

Records live streams that are published as HLS playlists, and keeps the state that a window and a
recording manager share.

`src/` is the library, verified with Verus. It reads no network, file or clock, but for the time
stamps of the shared state:

- `text`, `links`, `playlist`: lines, decimal numbers, addresses, and what is read from a playlist.
- `segment`: which replies are segments, and how often a segment is fetched.
- `downloader`: one round over a playlist, as a state machine that takes what happened and says what
  to do next; what the downloader remembers from round to round.
- `recording`, `parts`: the recording of a stream, part by part, as a state machine over the rounds;
  the files of the parts.
- `models`, `shared_state`: the models, the log and the configuration as the window shows them.
- `round_laws`, `output_laws`, `recording_laws`, `shared_state_laws`: what holds over many events or
  changes.

Playlists are parsed by `m3u8-rs`, addresses by `url`, the text of a status code comes from `http`
through `reqwest`, and the time from `chrono`. What the library believes of these calls is written
above the functions that make them: `parse_playlist`, `parse_url`, `join_url`, `describe_status` and
`local_now`, and for `std`, the two items on `PathBuf` in `shared_state`.

`app/` does what the state machines ask for: requests, files, the `ffmpeg` process, waits, locks and
channels.
