# tray_menu

Popup menus for system tray icons, and the icon and pointer logic of the
native tray backends, verified with Verus.

- `src/` is the verified library:
  - `entry.rs`: the menu model (`ItemId`, `TextEntry`, `CheckEntry`,
    `SubMenu`, `Divider`, `EntryKind`, `PopupMenu`, `AsEntry`) and its
    mathematical view (`EntryModel`).
  - `menu.rs`: `PopupMenu::plan`, the steps that build a native menu and the
    selection table that maps the platform's answer back to an `ItemId`;
    the Linux backend preference.
  - `icon.rs`: checking RGBA buffers against icon dimensions.
  - `linux.rs`: the X11 icon (nearest-neighbour scaling, premultiplied BGRX
    conversion), visual choice and pointer events.
  - `windows.rs`: NUL-terminated UTF-16, tooltip buffers, icon bitmaps,
    menu and notification flags, mouse messages and hover tracking.
  - `macos.rs`: the status-bar icon and its PNG encoding (through the `png`
    crate).
- `app/` holds the platform code that talks to the operating system (X11,
  Win32, AppKit, GTK) and acts on the library's decisions.
- `tests/` runs the library on concrete values.
