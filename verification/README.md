# fetcher_bot

A Telegram bot that fetches videos and audio from Instagram, X and YouTube, and the verified
library that decides what it does.

- `src/` is the library. It recognises links, keeps the menus and the queue, and drives each
  longer piece of work as a machine: the machine says which step comes next, and goes on from what
  came of it. Every function carries a contract that Verus proves. `src/outside.rs` holds the calls
  into other crates, whose contracts are taken as given.
- `app/` is the program around it. It performs the steps: it talks to Telegram and to ChromeDriver,
  runs `yt-dlp`, `ffmpeg` and `ffprobe`, and reads and writes files.
- `tests/` runs the library with the real crates.

The program reads `TG_TOKEN` and `MAX_CONCURRENT_DOWNLOADS` from the environment, and optionally
`CHROMEDRIVER`, `CHROME_BINARY`, `INSTAGRAM_CHROME_ARGS` and `RUST_LOG`. Cookies come from
`cookies.txt` in the working directory or beside the program, or else from the browser.

`Cargo.toml` holds every crate to one version. `takecell` is used by `teloxide` alone; it stands
there because its next version needs a newer compiler.
