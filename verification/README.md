# uplink

The verified core of a desktop chat client's interface.

- `src/` is the library, proved with Verus:
  - `logger` — the bounded in-memory log, its entries and where each entry
    is written;
  - `files` — file extensions, shortened folder names, and the selection of
    stored files to send;
  - `text` — decimal numbers, ASCII-case-insensitive search, replacement of
    a pattern, text equality;
  - `notifications` — titles, badge labels, toast markup and actions;
  - `friends` — blocked users, the empty-list notice, and the friend lists
    of the group editor (filtered and stably sorted by name);
  - `chat` — the open conversation: fetched windows of messages, the
    messages shown, where the view scrolls to, and the handling of message
    events;
  - `layout` — which panes show, attachments, drag-and-drop of files, the
    compose view and its top bar;
  - `metadata` — what the top bar shows of a conversation's participants.
- `tests/` runs the library on concrete values.
- `app/` holds the global logger with its file and terminal output, and the
  desktop notifications.
