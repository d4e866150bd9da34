# mamkilover

A Telegram bot that rewrites the links in messages: it drops tracking parameters, replaces the
hosts of some sites with friendlier frontends, reposts the message as a quote of its author, and
tells authors of the replies to their reposted messages.

- `src/` is the library. It decides which URLs are rewritten and how, what is sent to whom
  and what is recorded, and its contracts are proved by Verus.
  - `text`, `address`, `form`, `pattern`, `keys`: UTF-16 texts, URLs, form-encoded queries, regular
    expressions and sets of names.
  - `entity`, `message`, `render`: the messages of Telegram and what is made from them.
  - `formatter`: the rules that rewrite URLs, the walk that applies them to a message, and what
    the walk keeps.
  - `flow`: the handlers, as steps from what happened to what to do next.
- `app/` is the program around it: Telegram, SQLite and logging. It sets the label of the button
  under a notification and says that its text is HTML.
- `tests/` runs the library with the crates that it calls.

The functions named `outside_..` are the calls into other crates, and `text` holds specifications of
three functions of the standard library (`String::push`, `char::from_u32` and
`char::is_whitespace`). What these are taken to do is stated in their contracts and not proved.

`Cargo.toml` holds `takecell` to the version that the compiler can build; `teloxide` needs it.
