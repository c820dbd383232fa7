# cpos

The engine of a terminal companion for competitive programming, written in
Verus: what it computes is stated in `requires`/`ensures` contracts and proved.

- `src/` — the verified library: workspace and test paths, starter templates,
  problem recommendations (eligibility, stable ranking by score, capped and
  topped-up picks), compile/run command expansion and test verdicts, the
  stress-test driver, the self-update plan and `.crates2.json` parsing, and
  the arithmetic and colour rules behind the screens.
- `tests/` — tests on concrete values.
- `app/` — the terminal program around the library: processes, files, the
  clock, floating-point scoring and the ratatui screens.
