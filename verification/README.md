# jam

A listen-together client for music players: one side hosts a Jam, the other joins it by a short
code and follows the host's song. The two sides talk over a WebRTC data channel, in the messages
and the binary serialization of peerjs.

- `src/` is the verified library.
  - `binary64`, `json`, `binarypack`, `codec`: values and their wire format, with chunking.
  - `messages`, `track`: what the two sides tell each other.
  - `clock`, `position`: time, and the playback position between two reports of a player.
  - `peerjs`: tokens and ids, events, and the signaling connection.
  - `jam`: the session as a state machine. It is told commands, events and the time, leaves
    actions to be taken, and puts questions where it has to know something.
    `jam::laws` and `jam::delivery` state what holds of sessions as a whole.
  - `player`, `backends`, `lookup`: players, how they are spoken to, and how a song's uri is found.
  - `trace`: the lines that show the messages of a session.
  - `ui`, `cli`: what the window and the command line decide.
- `tests/` runs the library on concrete sessions.
- `app/` is the program around it: the window, the sockets, the players and the web.

Positions and durations are whole microseconds. A double on the wire is held by its bits.
