# Orpheus

Orpheus is a chat bot that helps a group find a day to meet, and runs a game of
narrative telephone. This crate holds what the bot decides, verified with Verus;
the bot itself, which talks to the chat service, is a thin program around it.

## Layout

- `src/` — the verified library:
  - `poll.rs`: a poll's week, its required users, and which days the answers rule out.
  - `poll_text.rs`: the poll's thread message, line by line.
  - `telephone.rs`: the story game's turn order and its messages.
  - `codec.rs`: the saved state at the end of a thread message (base64 of the JSON text)
    and reading it back.
  - `date.rs`: calendar days, with chrono doing the calendar work.
  - `pattern.rs`: dropping zero padding from dates and finding user mentions.
  - `handler.rs`, `commands.rs`: reaction handling and the commands as step functions,
    with the replies they send and the bot's status.
  - `emoji.rs`, `status.rs`, `text.rs`, `discord.rs`: shared building blocks.
- `tests/` — tests of the library on concrete values.
- `app/` — the bot: command registration, the chat service's calls, the JSON copies of
  the library's types, and the loops that run the step functions.
