# Blue Time

A Pomodoro timer for GNOME. The library under `src/` holds the verified
logic:

- `timer`: the session state machine (focus, short and long breaks, the
  long-break cadence), with its laws: the Pomodoro cycle, the countdown,
  pause/resume, and the cycle position that every operation keeps.
- `config`: the user settings and their conversion to session lengths.
- `stats`: the completed-session history, local midnight, today's figures
  and the per-day counts.
- `control`: what a menu command does, and what happens when a session ends
  (recording, notification data, sound, auto-start).
- `display`: countdown and duration texts, the indicator's status line, the
  play/pause control, the phase style, the cycle dots and the body of the
  end-of-session notification.
- `icon`: the minutes printed in the indicator ring and the conversion of
  the drawn pixels to straight ARGB in network order.
- `autostart`: the desktop entry that starts the program at login.

`app/` is the GTK/libadwaita program around it: windows, dialogs, the
StatusNotifierItem indicator, translations, the JSON files and the cairo
drawing.
