# netdash_desktop

The verified core of the NET Control Center desktop shell, a window around
the NET dashboard with a tray icon and a small settings file.

- `src/text.rs`: whitespace, equality and code-point order on texts.
- `src/hosts.rs`: the host allow-list, host matching, and clean-up of the list.
- `src/navigation.rs`: which URLs the embedded dashboard may open.
- `src/settings.rs`: stored settings, their clean-up and changes.
- `src/menu.rs`: the File and tray menus and what each command does.
- `app/`: the Tauri application around the library (windows, files, tray).
