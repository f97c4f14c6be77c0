# smtu_reminder

A Telegram bot that shows the class schedules of a university's student
groups and teachers, and reminds users of the next day's classes.

- `src/` is the verified library (Verus): the schedule store and its searches,
  the text of a day's schedule, the inline keyboard and its callback data, the
  readers of the university's HTML pages, the answers to each command, and the
  decisions of the background loops. Calendar arithmetic comes from `chrono`
  and HTML parsing from `scraper`, through small trusted wrappers. The
  weekday and the neighbouring days are stated outright; the ISO week number
  and date parsing are named as functions of the date. What `scraper` finds
  on a page is named as a function of the page's text and of the selections
  that lead to an element, so each page reader's contract says exactly what
  it returns for a given page.
- The page readers copy what a page holds into plain types (`GroupEntry`,
  `TeacherLink`, `Card`, `Row`); the rules that turn those into groups,
  teachers and classes are verified functions of the plain values.
- `app/` is the program around it: HTTP with `reqwest`, the SQLite database
  with `sqlx`, the Telegram dispatcher with `teloxide`, and the loops that
  sleep, fetch and send.
- `tests/` runs the library on concrete values.
