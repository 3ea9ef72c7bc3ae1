# emc_rs

A Discord music and moderation bot whose decision logic is a Verus-verified
library.

- `src/` is the verified library: music queues and their manager, the search
  cache, temporary voice channels, guild settings and their storage format, the
  `config-show` text, access control, command parsing and routing, Lavalink
  connection settings, back-off and track loading, and the text helpers they
  share. Public functions carry `requires`/`ensures` contracts (the clock's
  readings depend on the time of the call and are left unstated), and the laws
  that span several functions are public proof functions.
- `app/` is the bot around it: the serenity event handler, slash and message
  commands, buttons and menus, voice-state events, Lavalink and songbird calls,
  the SQLite settings repository, yt-dlp and logging. It hands plain values to
  the library and performs the actions the library decides on.
- `tests/` exercises the library on concrete values.
