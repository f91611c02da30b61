# dim

The decision logic of a self-hosted media server, verified with Verus.

`src/` is the library. It holds no files, sockets, processes or clocks: where something outside has to
be asked, a function takes the replies so far and says what comes next, and its contract says so for
every list of replies.

| Module | What it decides |
|---|---|
| `patch` | how fragmented MP4 files are renumbered and split, byte by byte |
| `sync_engine`, `syncplay_proto`, `syncplay_server` | rooms in which media is watched together, for web users and Syncplay clients |
| `profiles`, `session`, `streaming`, `direct_play`, `subtitles` | how media is transcoded or copied |
| `filename`, `torrent_numbers`, `scanner` | what media files are: from their names, sidecars and directories, and from providers |
| `providers` | which metadata providers are asked, and what their answers mean |
| `webhook`, `routes`, `settings` | what requests ask for, and how they are answered |
| `text`, `words`, `paths`, `components` | strings and paths as sequences |

Doubles are carried by their bit patterns. Comparisons of doubles, and everything that reads, writes or
waits, are in `app/`.

What the library takes on trust is marked `external_body` or `assume_specification`, with a comment that
names the outside function: the parsers of release names (`torrent-name-parser`, `anitomy`), boxes of MP4
files (`mp4`), digests (`md5`), random numbers (`rand`, `uuid`), addresses (`url`), dates (`chrono`), fuzzy
matching (`fuzzy-matcher`), and Unicode's tables in the standard library.

`tests/` runs the library with the real crates linked.
