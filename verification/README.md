# Pebbles

Verified protocol logic for a family of small network servers, written in
Verus:

- **ftpebbles** – an FTP server with optional login, passive and active data
  connections, `REST`/`APPE` transfer options and ASCII/binary transfers;
- **simple_ftp** – a smaller FTP server that accepts any login;
- **logs** – a log-frame server: frames formatted as
  `init^cmd^data^endData^close` arrive over WebSocket or UDP and become log
  entries, and connected WebSocket clients are kept in a registry;
- **smtp** – the SMTPebbles mail server (`HELO`, `EHLO`, `MAIL`, `RCPT`,
  `DATA`, `QUIT`), the reading of a message's headers, plain and multipart
  bodies and attachments, outgoing and incoming delivery, and the decisions of
  its web app (registration, login, sending mail) with its PASETO session
  tokens.

## Layout

- `src/` – the library. Every session is a state machine: a command goes in,
  the next state and an action come out, each stated by a spec function
  (`ftp_step`, `smtp_step`, `header_step`, ...) that the executable code is
  proved against. Laws about sequences of commands are public proof
  functions named `lemma_*`. `text.rs` holds the character-sequence model of
  `trim`, `split`, decimal printing and parsing that the protocols are stated
  with.
- `tests/` – tests of the library on concrete values.
- `app/` – the programs: sockets, files, databases, DNS and HTTP around the
  library (`pebbles <ftpebbles|ftp|logs|smtp> ...`).
