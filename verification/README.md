# schizoid

A Discord bot for a personal server: it greets members who join a voice channel (at most
once per configured interval), congratulates them on their birthday in the guild's time
zone, shows the status of a Minecraft server and alerts the guilds when it goes down or
comes back, keeps the last minute of each speaker's audio for clips, and lets members pick
a personal role colour.

## Layout

- `src/` is the verified library (Verus):
  - `voice_clip_recorder.rs`: the per-user one-minute ring buffer of 48 kHz PCM, WAV
    encoding, and the recorder state that voice events update;
  - `greeting_birthday_handler.rs`: when a join is greeted or congratulated;
  - `minecraft_server_handler.rs`: the status line and the alert state machine;
  - `database.rs`: users, guilds and members, and their stored rows;
  - `calendar.rs`: instants as plain numbers, and the calendar questions asked of
    `chrono` / `chrono_tz`;
  - `storage.rs`, `config.rs`, `commands.rs`: file layout, configuration, command logic;
  - `text.rs`: integer parsing and printing, trimming and searching of text.
- `app/` is the bot itself: Discord, voice, SQLite and file-system plumbing around the
  library.
- `tests/` exercises the library.
