# raft

Leader election in the style of Raft, for nodes that talk over TCP with one line of
text per message.

- `src/` is the verified library:
  - `text`: words of a line, reading and writing numbers and booleans;
  - `messages`: the messages nodes exchange and what a connection hands on;
  - `protocol`: the line written for each message and the message read from each line,
    with the proof that what one node writes the other reads back;
  - `consensus`: the election state of a node and how each message, timer tick and
    failure changes it, and what it asks to be sent;
  - `health_connection`: the state of one connection;
  - `raft_module`, `node_config`, `logger`: start-up decisions and configuration;
  - `laws`: properties that tie several of these together.
- `app/` runs it: actors, sockets, clocks, files and logging.
