# ktouchbar

A Touch Bar daemon for KDE Plasma: context-aware buttons, expandable panels,
sliders for volume and brightness, and a function-key row when no desktop
session is running.

## Layout

- `src/` is the verified library. It holds the rules of the daemons, each
  with a contract checked by Verus:
  - `config`: merging the system and user configuration, padding and margin
    resolution, actions, how a layer with a dynamic widget is expanded;
  - `interaction`: what a touch-down, motion and lift do, held keys, queued
    panel actions, layer switching, the hardware daemon's own key row;
  - `navigation`: the panel stack and the idle timeout;
  - `backlight`: the brightness policy (active, dimmed, off, lid closed);
  - `battery`, `icon`, `dynamicshortcuts`, `system_monitor`, `user_cache`:
    the cached readings and their updates;
  - `clock`: a clock widget's strftime pattern and locale, read by chrono;
  - `parse`, `text`, `paths`, `display`: reading sysfs attributes, session
    listings, the systemd environment, KDE and GTK colour files, paths and
    icon search order, and recognising the display and the digitizer.
- `tests/` runs the library on concrete values.
- `app/` is the program around it: D-Bus, DRM, libinput, uinput, cairo
  drawing, TOML parsing and the floating-point layout. Run it as
  `ktouchbar system` for the hardware daemon and `ktouchbar user` in the
  desktop session.
