# datalith

The verified core of the Datalith desktop workspace: the decisions the window shell
delegates, each with a contract proved by Verus.

- `paths`: paths as sequences of components; joining, prefixes, rebasing, lexical
  normalisation.
- `tabs`, `navigation`, `workspace`: the open tabs and their selection, per-tab
  back/forward history, what opening a document does, the saved workspace.
- `vault_session`: switching vaults through background catalog loads that commit only
  while current; what each catalog poll does.
- `file_tree`: the sidebar tree (ordering of a folder's entries and the nodes built from
  them, visible rows, expanded folders, renames, drag and drop, keyboard moves).
- `rename`: when a rename is attempted, what it reports, and how tabs, the pending
  document and the selection follow it.
- `shortcuts`: the keyboard shortcut reference with digit runs collapsed.
- `theme_schema`, `theme_editor`, `theme_page`: labels, descriptions and groups of theme
  colour tokens; variant names and suffix validation; the family list, its search and
  filters; what importing a theme file asks.
- `licenses`, `notices`: the licences panel, its word wrapping and the corresponding-source
  address.
- `settings`, `fonts`, `server_settings`, `menu_session`, `todo`, `monolith`, `messages`,
  `links`, `icons`, `startup`, `text`: the remaining pages, pickers, menus, labels and texts.

`app/` holds what the library cannot: reading the file system and the build environment,
and converting values for the toolkit.
