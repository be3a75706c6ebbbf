# dsh_desktop

The verified core of the DeepSeek Harness desktop shell, written in Verus.

- `src/web_url.rs` — the harness web-app URL and the routing rule that keeps
  the webview on the client's own surface (loading page and app origin);
  everything else opens in the system browser.
- `src/launch.rs` — the launch command line, the `PATH` of the launched
  server (de-duplicated, order-preserving) and the launch plan.
- `src/paths.rs` — checkout discovery (configured directory, walks up from
  the working directory and the executable, home scan) and program lookup.
- `src/server_log.rs` — the retained tail of the server's output.
- `src/boot.rs` — the decisions of the boot sequence: attach or launch, then
  wait until reachable, exited or timed out.
- `src/commands.rs` — the command the loading page invokes to choose a
  checkout.
- `src/text.rs` — character-level helpers (whitespace splitting, trimming,
  decimal text, `u64` parsing).

`app/` holds the Tauri shell around the library: the webview, the process
spawning, the probes, the file-system listings and the events.
