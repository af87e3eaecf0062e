# ralph_robot

The robot side of an agent loop, written in Verus: a loop runs an agent through the
Agent Client Protocol, keeps the terminals that the agent asks for, and talks to a
human through files in its workspace.

- `src/` is the library. It decides and computes: what an agent's notifications amount
  to, what each request for a terminal does, what is kept and shown of a command's
  output, which document is written for a question, an answer, a check-in or guidance,
  and what a file that was read amounts to. Its functions have contracts that Verus
  proves, but for those named at the end. The laws that relate them stand beside them, and in `terminal_laws.rs` and
  `robot_laws.rs`.
- `app/` does what takes time or leaves the process: it starts and signals processes,
  speaks the protocol, reads and writes the files.
- `tests/` runs the library.

What the library takes from other crates (`serde_json`, `chrono`, `nix`) and from the
standard library without proof stands in functions marked `external_body`, each with
the claim that is made of it.
