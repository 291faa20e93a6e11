# apple-mail-mcp

A local, macOS-only command line and stdio MCP server for Apple Mail, whose
decisions are proved with Verus: every request is checked before it reaches
Mail, the MCP server refuses writes and sends unless it was started with the
opt-ins for them, moves and sends need a confirmation on each call, continuation cursors are
accepted exactly when well formed, and the errors shown to a caller never
repeat what the caller sent.

## Layout

- `src/` is the verified library.
  - `validate.rs`, `cursor.rs`, `cursor_format.rs`, `dates.rs`: the input
    checks, the cursor grammar, and the laws proved of them.
  - `service.rs`: `MailService`, its write and send policy (a new service
    allows writes and does not send), and the `prepare_*` step of each
    operation.
  - `automation.rs`: the bounds and checks around each Mail call.
  - `command_line.rs`, `cli.rs`: the command-line grammar and the operation
    each command stands for.
- `app/` is the program around the library: the `osascript` process, JSON,
  the MCP server and `main`. The automation script `mail.js` is read from the
  directory of the executable.
- `tests/` runs the library on concrete cases.

## Usage

```bash
apple-mail doctor
apple-mail accounts
apple-mail mailboxes --account ACCOUNT_ID
apple-mail inbox --recent-limit 20 --unread-limit 20
apple-mail search --account ACCOUNT_ID --mailbox INBOX --unread true --limit 20
apple-mail show --account ACCOUNT_ID --mailbox INBOX --id 123 --max-body-chars 8000
apple-mail move --account ACCOUNT_ID --mailbox INBOX --id 123 \
  --destination-mailbox Archive --confirm-move
apple-mail mcp                              # read-only
apple-mail mcp --allow-write                # drafts, state changes, moves
apple-mail mcp --allow-write --allow-send   # sending too
```
