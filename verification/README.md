# cagent surfaces

The anchored surfaces of a terminal agent client: menus, forms, pickers, prompts and
expanded views, with their key handling, layout and hit testing.

The library under `src/` is written in Verus. Its functions state in `requires` and
`ensures` what they take and what they give back, and Verus proves it; the promises that
hold across functions stand there as public proof functions whose names start with
`law_`.

- Text: `text`, `unicode`, `lines`, `render`, `style`, `composer`, `search`, `number`,
  `json`
- Inputs: `key`, `control`, `single_line_input`, `multiline_input`, `input_syntax`,
  `masked`, `completion`
- Lists and scroll views: `list`, `scroll`, `menu`
- What the surfaces are about: `interaction`, `permission`, `providers`, `agents`,
  `agent_drafts`, `settings`, `status_line`, `mcp`, `mcp_package`, `mcp_control`, `pickers`,
  `supervised_work`
- How they look: `dialogs` and the modules whose names start with `render_`
- Expanded views: `expanded`, `expanded_content`, `agent_log`, `agent_log_rows`,
  `agent_log_layout`, `choices`, `code_lines`, `file_rows`, `file_views`, `file_laws`
- All surfaces together: `surface`, `surface_hits`, `surface_layout`, `surface_key`,
  `surface_paste`, `surface_status`, `app`, `paging`, `routing`; `surface_laws` shows that what a
  pointer meets lies on the rows that are drawn
- What a key leads to: `follow` and `follow_mcp` tell what becomes of the open surfaces when
  a key asks for something, and the modules whose names start with `reports` tell it once
  the client has done its part; `copies` holds what they copy

`app/` draws the surfaces with ratatui and feeds them the events of crossterm. It keeps no
rules of its own: what a key asks for comes back as a step, which the client performs.

`tests/` runs the library.
