# pictionary

A browser drawing-and-guessing game. Players meet in a room through a game
server, take turns drawing a word on a shared board, and guess it in the chat;
peers also talk to each other over WebRTC data channels, set up through a
signalling server.

The library (`src/`) holds the game's state and every decision, verified with
Verus:

- `text`, `wire`: decimal parsing and printing, whitespace trimming, ASCII
  case folding, and the `"<command>: <id>\n<data>"` frame of the signalling
  protocol. Reading a frame gives back what was framed when the command is
  one ASCII character other than a line feed and neither the id nor the
  payload holds a line feed; the command then reads back followed by `": "`,
  an empty id as none, and an absent payload as empty.
- `lobby`, `socket_agent`: the peer-to-peer lobby and the agent that runs it,
  as a state machine from events to a new state and the actions to perform.
- `structures`: the game server's view of rooms, players, rounds and scores.
- `home`, `room`, `gameroom`, `app`, `room_mediator`, `peer`, `draw_widget`,
  `chat_history`, `notification`, `avatar`, `peer_handler`: the state and the
  decisions of each screen and widget.

`app/` is the yew application around it: the components that render the
library's state, the agents that own the sockets and peer connections and
perform the library's actions, and serde copies of the library's types for
the JSON messages of the game server.

`tests/` exercises the library on concrete values.
