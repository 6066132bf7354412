# FirstSet

A first-setup tool for Windows Server: KMS activation, OpenSSH and Remote
Desktop with linked firewall rules, Remote Desktop Services roles and
licensing, and generated local users, driven through PowerShell.

- `src/` is the verified library (Verus):
  - `text` — the character model: Unicode white space, trimming, splitting,
    lines, words, joining, decimal rendering, lexicographic sorting;
  - `config` — the configuration, its defaults and its three validations;
  - `roles` — RDS role states and the parsing of the role query's output;
  - `powershell` — framing a script and encoding it for `-EncodedCommand`;
  - `runner` — tasks, the script steps that carry them out (with their
    environment variables), dry-run messages, and task outcomes;
  - `setup` — the window's state machine: task events, role queries,
    saving, starting tasks, and editing the firewall source list.
- `app/` is the program around it: configuration files (TOML), threads and
  PowerShell processes, and the egui window.
- `tests/` runs the library on concrete values.
