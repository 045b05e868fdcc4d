# evo kiosk

The decision core of an on-device kiosk shell, written and proved in Verus,
with a thin GTK and WebKit program around it.

- `src/` is the library. It touches no file, socket, clock or display: it takes
  plain values and gives plain values back.
  - `overlay`, `settings`: the operator settings, how each is written without a
    reader seeing half of it, and how it is read back
  - `calibration`, `binary64`: the touch wizard, over the bit patterns of
    floating-point numbers
  - `mint`, `js`: the session client, its frames, answers, retries and
    renewals, and how a bearer travels into the page
  - `messages`: what the page's settings messages lead to, and what it is told
  - `nav_policy`: which navigations stay on the kiosk's origin
  - `shell`: what the program does after a mint, a crash or a trigger
  - `text`: strings as sequences of characters
- `tests/` runs the library from outside.
- `app/` is the program: it reads and writes files, talks to the mint socket,
  runs the web view, and does the wizard's floating-point arithmetic.

The facts that the proofs rest on without proving them stand beside the calls
that they speak of: `String::push` and `str::trim` in `text`, JSON
serialisation in `mint`, and URL parsing in `nav_policy`.
