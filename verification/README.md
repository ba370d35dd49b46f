# waybar-unixtime

Live unix timestamps for Waybar, themed by omarchy, with the logic written
in Verus and proved against its contracts.

## Layout

- `src/` — the verified library.
  - `instant` — instants as (seconds, nanoseconds) and the calls into
    `chrono` that read the clock, look up the local offset and format.
  - `text` — decimal text of integers, digit parsing, trimming.
  - `clock`, `output` — the bar text, the short tooltip and the JSON line.
  - `formats` — the fifteen built-in formats, `custom:<strftime>` keys,
    and the Pango panel tooltip.
  - `state` — which format the bar shows, toggling, CSS classes.
  - `convert` — reading epoch digits and date strings, applying offsets
    such as `+2h30m`.
  - `picker` — the lines of the interactive panel and what a chosen line
    copies.
  - `history` — which copies are kept, their listing, the file framing.
  - `menu` — the dropdown XML and the ready-to-paste module config.
  - `theme` — the palette from `colors.toml` and the generated CSS.
  - `commands` — what `copy` and `formats` print.
  - `cli`, `config` — command-line and settings values.
- `app/` — the program: argument parsing, files, signals, the dmenu
  launcher and `wl-copy`.
- `tests/` — tests of the library on concrete values.

## CLI

```
waybar-unixtime once          # one waybar JSON line
waybar-unixtime copy [FMT]    # print a timestamp in any format
waybar-unixtime formats       # list all keys with live examples
waybar-unixtime set FMT       # change the bar display format
waybar-unixtime toggle        # flip seconds <-> milliseconds
waybar-unixtime menu          # dropdown XML (--install to write)
waybar-unixtime css           # themed CSS   (--install to write)
waybar-unixtime snippet       # ready-to-paste waybar config
waybar-unixtime run           # streaming mode
```
