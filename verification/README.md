# widget_identity_creator

A desktop helper that applies a Discord application identity to a widget:
it fetches the widget configuration with the bot token, checks the sample
data against it, lets the user fill in the data fields, and applies or
publishes the result.

- `src/` is the verified library. `json` models a `serde_json::Value` as a
  mathematical JSON document and holds the trusted operations on it;
  `fields` walks a configuration for its data fields; `sample` checks the
  entries of the sample data; `update` writes a field into the sample data;
  `validator` holds the public checks; `discord` the token shape, the
  requests to the API (each to `https://discord.com/api/`, with the bot
  token only in its `Authorization` header) and the reply rules; `state` the
  state of the app, what every state reached from the start keeps, and what
  each click and each reply does; `laws` what holds across these functions.
- `app/` is the window (eframe); it sends the requests that the library
  builds (reqwest) and hands their outcomes back.
- `tests/` runs the library on concrete documents.
