# gen_doc

Terminal help pages for programs: a help file (`help_pgm.txt`) is shown, stored in an SQLite
database, shown again from there, or deleted.

- `src/` is the verified library (Verus):
  - `terminal`: styles, colors and the escape sequences the programs write (styled text,
    window size and title, mouse reporting, screen clearing, the pause prompt, the escape key);
  - `help`: help files cut into lines, the terminal form of each line of help, the database
    record of each line, the SQL statement and messages the programs use;
  - `rawmode`: the terminal settings of raw mode, from libc's constants;
  - `text`: lines and trimming as `str::lines` and `str::trim` do them;
  - `decimal`: decimal forms of integers.
- `app/` is the program: raw mode through libc, stdout and the keyboard, the SQLite database
  (rusqlite), and the three commands `gendoc`, `dspdoc` and `dltdoc`, chosen by the name the
  binary is run under.
- `tests/` runs the library on concrete values.
