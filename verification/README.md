# phira_mp

The rules of a multiplayer service for a rhythm game, written in Verus: what goes over the
wire, what happens in a room, who may come in and who is sent away, and how games are kept
in replay files. Every function of the library is proved to do what its contract says.

## The library, `src/`

- The wire: `bin` (encoding), `command` (commands and messages), `frame` (packets and
  frames), `stream` (one direction of a connection).
- The rooms: `room`, `world`, `hub`, `session` (commands of clients), `stats`.
- The server: `server`, `presence` (connections), `tidy`, `ban`, `auth`, `admin`,
  `moderation`, `players`.
- The client: `client`, `resolver`.
- Replays: `replay`, `buffer`, and `playback`, which reads a record back.
- What holds throughout: `upkeep`, `order`, `seats` and `keys` (what every step keeps),
  and `laws`.
- Helpers: `table`, `text`.

State changes are functions on the state; what is to be done outside, such as sending a
command, waiting, or saving a file, is left in a list of effects. Where chance or a clock
decides, a function that takes the number as an argument says what becomes of it, and the
one that draws the number calls it. Floating-point values are carried as their bits.

What is taken on trust is marked `external_body` and says which outside function it is about.

## The program, `app/`

The sockets, the web server, the files, the clock and the timers. It keeps the state of the
server behind one lock, hands events to the library, and performs the effects.
