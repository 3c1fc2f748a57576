# jscalendar

A calendar client for JMAP servers, drawn on the server, with its logic verified by
[Verus](https://github.com/verus-lang/verus).

It speaks JMAP Core, JMAP for Calendars and JMAP Contacts, and shows JSCalendar events in month,
week, day and agenda views, with the contacts (JSContact), their birthdays, public holidays and
subscribed calendars beside them.

## Layout

- `src/` is the library: all that is computed and decided. Its contracts say what the functions
  return, and what the library promises as a whole is proved in public proof functions, such as
  - `ics_laws::ics_round_trip` and `vcard_laws::vcard_round_trip`: what is exported reads back;
  - `recurrence_laws::rule_misses_nothing` and `rule_gives_named_dates`: a rule gives the dates
    that it names, and all of them;
  - `recurrence_laws::touching_date_occurs`: what reaches into a range is shown there;
  - `recurrence_laws::range_in_parts`: a range can be shown in parts;
  - `byday_laws`: a rule keeps to the days of the week that it names;
  - `layout::same_lane_apart`: events in one lane do not overlap;
  - `params::bookmark_reads_back`: the address of a page shows that page again;
  - `mock_laws`: what a client writes to the server it reads back.
- `app/` is the program around it: HTTP, the database, DNS, the clock, templates, and the copies
  of the library's types that travel as JSON. `mock-server` as its first argument runs a JMAP
  server in memory that takes any credentials.
- `tests/` runs the library on concrete values.

The contracts of outside crates (`chrono`, `chrono-tz`, `holiday_de`, `url`, `base64`, `argon2`,
`uuid`) are stated at the few functions that call them; each says in its doc comment what it takes
from the crate.

## Settings

| Variable | Default | Meaning |
|---|---|---|
| `PORT` | `8787` | the port to listen on (`9090` for the server in memory) |
| `JSCAL_TIMEZONE` | `UTC` | the zone in which views are drawn |
| `JSCAL_TIME_FORMAT` | `12h` | `12h` or `24h` |
| `JSCAL_HOLIDAYS_REGION` | none | the German state whose public holidays are offered |
| `JSCAL_STATIC_DIR` | `static` | where `/static/*` and `/sw.js` come from |
| `JSCAL_DB` | `data/jscalendar.db` | the database of accounts |
| `JSCAL_ADMIN_PASSWORD` | none | resets the password of `admin` at the start |
| `JSCAL_DEMO_SERVER_URL`, `_USERNAME`, `_PASSWORD` | none, `demo`, `demo` | fill the page to sign in |
| `JSCAL_SERVER_URL`, `_USERNAME`, `_PASSWORD`, `_TOKEN` | none | a connection for everybody |
