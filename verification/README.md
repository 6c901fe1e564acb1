# Paloma

A native Telegram client for the GNOME desktop. The decisions of the client — what
an update changes, which page is shown, what a row displays, who owns the audio
pipeline — are a library, verified with [Verus](https://github.com/verus-lang/verus).
The widgets, TDLib and the audio pipeline are ordinary Rust around it.

## Layout

- `src/` — the library. Every step is a function from a state and an event to the next
  state and a list of effects; its contract says exactly which. Public proof functions
  state what holds across steps.
  - `tdlib/` — authorization, the client's subscribers, the download cache, and plain
    values for TDLib's objects
  - `models/` — what a chat row and a message row hold
  - `ui/chat_list.rs` — the sidebar
  - `ui/chat_view/` — an open chat: `model` and `state` are the mathematical side,
    `history` and `view` the executable one; `laws`, `index_laws` and `mirror` hold the
    proofs about whole histories; `rows`, `menu`, `voice_row`, `markup` say what is shown, and
    `reading` how the markup reads
  - `ui/login/` — the login pages
  - `app.rs`, `audio.rs`, `config.rs`, `format.rs`, `text.rs`
- `app/` — the program: GTK widgets, TDLib requests, GStreamer, files and settings. It
  carries out effects and hands events back.
- `tests/` — tests of the library on concrete values.

## Running

`paloma` starts the client. It needs an `api_id` and an `api_hash` from
my.telegram.org, in `PALOMA_API_ID` and `PALOMA_API_HASH` or in
`~/.config/paloma/credentials.toml`. `paloma tdlib-check` checks the backend without a
display.
