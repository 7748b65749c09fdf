# jupabot

JupaBot is a moderation and welcome bot for Fluxer guilds. This crate holds
its decisions, verified with Verus; the program in `app/` connects to Fluxer
and to a PocketBase database and carries those decisions out.

- `src/` — the verified library:
  - `text`: character-level text operations (trim, split, join, replace, number parsing and printing);
  - `time`: UNIX seconds to a UTC calendar date, proved correct and invertible, with the
    laws of its two printed forms (next day, agreement of the formats, order and injectivity);
  - `ids`, `duration`: member mentions and durations such as `10min`;
  - `embed`, `help`, `commands`: the replies of the simple commands;
  - `moderation`, `admin`: `!ban`, `!unban`, `!kick`, `!mute`, `!unmute` (durations, days of
    messages to clear, mute scopes, unban by name, the replied author as target when no member is named) and who may use them;
  - `welcome`, `greet`, `events`, `captcha`: welcome messages with role reactions and
    CAPTCHA challenges, and the image greeting of new members;
  - `reactions`: the step function that handles a reaction to a welcome message (roles or a CAPTCHA);
  - `records`: the database records and addresses;
  - `external`: the calls into `fluxer-types`, `fluxer-core`, `base64`, `serde_json` and std, with their trusted contracts.
- `tests/` — tests of the library on concrete values.
- `app/` — the bot itself: gateway events, REST calls, HTTP requests and database access.
