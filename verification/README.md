# Build Bridge

A desktop dashboard that keeps a list of app projects, finds their build
artifacts, and serves them to phones on the local network through a small
HTTP agent.

- `src/` is the verified library (Verus): the project list and its
  operations (create, edit, archive, bin, restore, delete, bulk actions),
  build scanning and starring, list filtering and stable sorting, the
  preferences and their round trip, the serve agent's argument parsing,
  routing, file naming and download page, the terminal's ANSI parsing, the
  QR bitmap, and the dashboard's page and dialog state (including the select
  modes of the archive and bin pages). Each public function
  states its result in `ensures`; the laws that span functions are public
  proof functions (`storage_roundtrip`, `padded_storage_roundtrip`,
  `preference_texts_roundtrip`, `sync_then_read`, `sync_settles`,
  `status_changes_compose`, `deleted_name_is_gone`, `emptied_bin_is_empty`,
  `emptying_bin_again_changes_nothing`, `created_name_is_unique`,
  `create_keeps_names_distinct`, `toggle_leaves_one_star`, `toggle_twice_clears_star`,
  `icon_files_follow_theme`, `listed_projects_belong`,
  `other_pages_list_nothing`, `sanitized_is_safe`, `escaped_has_no_markup`,
  `chosen_name_is_free`, `tokens_keep_text`).
- `app/` is the program around it: the egui window, the JSON files in the OS
  config folder (serde copies of the library's types), folder scanning, the
  serve agent's HTTP loop (the same executable, started with `--projects`),
  and the Creator Deck window (`--creator-deck`).
- `tests/` runs the library on concrete values.

Icons and fonts are read at run time from an `assets` folder beside the
executable (`assets/icons/*.svg`, `assets/fonts/JetBrainsMono-Regular.ttf`,
`assets/icon.ico`).
