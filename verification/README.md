# konx

The decision logic of the KonX desktop writing and screen-guidance assistant,
written in Verus and verified.

- `src/text.rs` — characters of strings, Unicode trimming, substring search.
- `src/uia.rs` — on-screen elements as UI Automation reports them, the tiered
  choice of the control a guidance step points at, the cleaning of model-chosen
  target names, and the list of interactive controls shown to the model.
- `src/ai.rs` — keys, models, request texts and endpoints, and how a model
  reply or failure is read.
- `src/flow.rs` — the request flow: server first when signed in, else the local
  key, with one retry on the smaller model for a passing overload.
- `src/guide.rs` — the next-step prompt and the reading of the step reply.
- `src/orb.rs` — corner docking of the floating orb.
- `src/window.rs` — remembering the user's window, focusing it, and the
  copy/paste key sequences.
- `src/screen.rs` — screenshot shrinking rule and base64 encoding.

`app/` is the Tauri application around the library: windows, the network,
the clipboard, the keyboard and Windows UI Automation.
