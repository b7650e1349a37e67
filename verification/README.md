# hailux_tui

The logic of the terminal interface of a coding agent, written in Verus: each
public function states what it returns in `requires` / `ensures` over
mathematical models (`Seq`, `Map`, plain values), and Verus proves the code
against it.

## Layout

- `src/` — the verified library.
  - Input: `text` (characters and UTF-8 offsets), `width` (terminal columns),
    `input` (the input box with atomic elements and history), `line_edit`
    (one-line form fields), `paste` (telling pastes from typing, placeholders),
    `chat_input` and `chat_keys` (what keys and pastes do), `keys`.
  - Commands and pickers: `command`, `picker` (the `@` file picker),
    `session_picker`, `model_picker`, `setup`, `ask_user`, `permission`,
    `list_nav` (the list panels), `turn` (what sending a message changes).
  - What dialogs show: `mcp_view` (the MCP server list and a server's page),
    `ask_user_view` (the ask-user dialog, wrapped with `textwrap`),
    `model_list_view` (the model switcher), `add_model_view` (the add-model
    form), `session_list_view` (the session list); `render_cache`
    (rendered lines, emptied when the width changes).
  - Transcript: `transcript` (streaming), `history` (grouping into cells),
    `session_restore` (rebuilding a saved session), `task_log` (delegated
    tasks), `tool`, `tool_summary`,
    `call_summary`, `todo`, `json_args` (what is read from JSON arguments
    through `serde_json`), `clipboard` (image bytes and paths), `timing`.
  - Properties spanning several operations are public proof functions named
    `law_*` (`input_laws`, `form_laws`, `ask_user_laws`, and in the modules
    they concern).
- `tests/` — tests of the library, run against the compiled crate.
- `app/` — the unverified edge: terminal events (crossterm), the clock, the
  local date, the clipboard tools, image files and the work-directory listing.
