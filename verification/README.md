# vocab

A vocabulary flash-card app: word banks imported from plain text, studied as
flash cards or as multiple-choice quizzes, with starred and wrongly answered
words reviewed on their own, paused sessions kept and resumed, and statistics.

The library in `src/` holds the app's logic, verified with Verus:

- `parser` reads a word list: one entry per line, word and definition cut at a
  tab, " - ", " | ", "|", a full-width colon or ":" (in that order of preference).
- `study` is the state of studying: starting, answering, finishing, pausing,
  keeping and resuming a session; `quiz` asks the multiple-choice questions.
- `library` holds the rules for banks and words (import, rename, star, recount).
- `stats` sums up finished sessions; `theme` holds the color themes.
- `text` trims and compares texts; `shuffle` reorders cards with `rand`.

`app/` is the program around it: the egui window, the SQLite database
(rusqlite) and the JSON files for the kept session and the settings.
