# telnet_server

A barebones telnet server. It speaks the escape sequence framing of the protocol,
refuses every option, and gives each client a shell on a pseudo terminal.

`src/` is the protocol, verified with Verus. A `TelnetConnection` does no input or
output of its own: `poll` says which read or write comes next and is told what
became of it.

- `protocol`: the codes of commands, options and requests
- `reader`, `reply`: the read buffer, and an answer sent byte by byte
- `codec`: what a stream of telnet bytes means
- `model`, `connection`: the connection as a state machine, and its code
- `laws`: what holds of every step
- `traffic`: what holds of everything that goes through a connection
- `flags`: the status flags of a non-blocking file

`app/` is the server around it: sockets, pseudo terminals and shells.
