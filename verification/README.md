# simple_chat

A small chat service: chat rooms with participants, a per-room message
history, chat servers that deliver messages to rooms, a load balancer that
knows the chat servers, message servers that users connect to, and a
user-mapping server that tells on which message server each user is.

- `src/` is the library, verified with Verus: the rooms, the histories, the
  chat server's delivery rules, the string-keyed map they are kept in, the
  user table of the user-mapping server, the decisions the servers take on
  websocket traffic, and the URL-safe form of socket addresses.
- `app/` is the program around it: command line, Rocket routes and
  websockets, tokio tasks and channels, HTTP calls, JSON.
- `tests/` exercises the library.
