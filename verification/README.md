# discord_bot

A Discord bot whose decisions and text handling form a verified library.

- `src/` is the library, verified with Verus: decimal text (`text`), what is
  read from HTML pages through `scraper` (`html`), the command counter
  (`counter`), greetings and safe-text settings (`chat`), administrator checks,
  shutdown and message deletion (`owner`), the `ssh` command's arguments and
  host status page (`ssh`), price tracking (`scraping`) and the weather report
  (`weather`).
- `app/` is the bot itself: the serenity client, the commands and hooks, the
  scheduler, HTTP fetches and the SSH session. It performs what the library
  decides.
- `tests/` runs the library on concrete values.
