# useless_bot

The rules of a small Discord bot, verified with Verus: Facebook link
rewriting for previews, keyword replies, Open Graph metadata of web pages,
the replies of the playful commands, and the bot's settings.

- `src/` is the verified library. `text` holds the character-level string
  operations (trim, replace, split, search, decimal) with their meaning;
  `string_map` a map keyed by strings; `link_helper` Facebook links, the
  preview check, the curl version and Open Graph extraction; `events` the
  message filters and the decisions taken on gateway events; `commands` the
  command replies; `embed` the rich embeds of the replies as plain values;
  `config_reader` the keyword table; `env_variables` the
  settings.
- `app/` is the bot itself: the gateway connection, web requests, timers and
  environment reads, which hand plain values to the library and act on what
  it decides.
- `tests/` exercises the library on concrete values.
