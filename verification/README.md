# trisig

The verified core of a desktop traffic-light indicator: a small always-on-top
window showing a red, yellow or green lamp, driven over HTTP and from a tray
menu.

`src/` is the library, proved with Verus:

- `text` — decimal writing and reading of numbers, prefixes, splitting;
- `corner` — the four window corners and their stored names;
- `monitor` — which display the window starts on and is laid out on;
- `settings` — what the settings file holds, and its defaults;
- `state` — the running state, built from and saved to the settings;
- `menu` — what each tray entry asks for and what it changes;
- `server` — the ports the HTTP endpoint tries and the addresses it shows;
- `request` — reading a request's query and deciding the answer.

`app/` is the Tauri front end around it: the window, the tray, the clipboard,
the settings file on disk, the `tiny_http` listener, and the floating-point
parts (window geometry, reading numbers from a query).
