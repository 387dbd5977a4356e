# claude_team

The mailbox protocol an agent uses to talk to its teammates, with its logic
verified by Verus.

- `src/text.rs`: Unicode whitespace, word splitting, trimming, message
  summaries and XML attribute escaping.
- `src/protocol.rs`: envelopes and control messages, the JSON text of a control
  message, and the `teammate-message` text a teammate is shown.
- `src/inbox.rs`: what the bytes of an inbox file mean, appending, and how one
  pass over an inbox routes each envelope.
- `src/watcher.rs`: when the inbox watcher runs a pass.
- `src/identity.rs`: the teammate identity line and its width-limited rendering.
- `app/lib.rs`: file I/O, serde forms of the library types, the polling task,
  and drawing with ratatui.
