# yunxi_agent

The verified core of the YunXi agent: the Weixin (WeChat) bridge state
store, the terminal UI's presentation and layout rules, and the voice
client. Every function in `src/` carries a contract that Verus proves.

## Layout

- `src/` — the library:
  - `weixin_*` — the bridge's state snapshot: validation, migration of old
    files, inbound commits, the pending queue, delivery, bindings, traces,
    pruning and the account lock; `weixin_laws` holds the laws that span
    operations.
  - `presentation`, `presentation_state`, `timeline_store`, `timeline_order`,
    `frame`, `host`, `input_map`, `bottom_pane`, `text_layout`,
    `debug_buffer` — how agent events become transcript cells, how streams
    are kept canonical, redraw scheduling, terminal restore order, key
    handling, text wrapping and the bounded store of hidden debug details.
  - `speech_text`, `speech`, `speech_laws`, `voice_config`, `voice_client`,
    `voice_capture`, `voice_live` — rendering text for speech, the voice
    runtime's configuration and the checks around each request and reply,
    WAV encoding, channel mixing and voice activity detection.
  - `session_graph`, `storage`, `conversation_state`, `companion`,
    `memory_vector` — the parent/child graph of sessions (refused when
    parent links cycle), session ids, the history and rollout budget, the
    checks on stored conversation state, the companion mailbox's task
    reports and letter completion, and what a memory vector sync removes,
    keeps and embeds again.
  - `json_value`, `tools`, `fingerprint`, `seqs`, `text` — shared models and
    helpers.
- `tests/` — tests on concrete values, run against the compiled library.
- `app/` — plain Rust around the library: files, the environment, the
  clock, terminal events and the voice runtime's HTTP client.

Calls into outside crates (`unicode-segmentation`, `unicode-width`,
`base64`, `reqwest`, `hound`) go through small wrappers whose contracts are
trusted; each says in its doc comment what it claims of the crate.

## Not covered

Two modules of the terminal UI that this library builds on are not part of
its sources: the output summary rules (secret redaction, truncation with a
notice, and the display of a debug detail) and the approval pane's layout.
So `debug_buffer` stores details as its caller prepares them, and the
bottom pane computes the composer's height but not the approval prompt's.
The tests `stores_debug_entries_with_redaction` and
`narrow_approval_prioritizes_decision_over_command_height` are missing for
that reason.
