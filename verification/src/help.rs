use vstd::prelude::*;
use vstd::string::*;

use crate::terminal::reset_seq;
use crate::text::{chars_of, lines, push_char, split_lines, string_of, strip_leading, strip_leading_str, trim, trim_str};

verus! {

/// CR LF: the help is written to a terminal in raw mode, where LF alone does not return the
/// cursor.
pub open spec fn crlf() -> Seq<char> {
    seq!['\r', '\n']
}

/// The terminal form of one line of help, by its attribute code:
/// `*` a title (green, bold), `!` a warning (yellow), `-` an item of a list, `.` an indented
/// line, `?` a hint (cyan), `_` an emphasis (red, underlined); any other code is written
/// before the text, with a space between.
pub open spec fn help_line(code: Seq<char>, text: Seq<char>) -> Seq<char> {
    if code == seq!['*'] {
        seq!['\x1b', '[', '3', '2', 'm', '\x1b', '[', '1', 'm'] + text + reset_seq() + crlf()
    } else if code == seq!['!'] {
        seq!['\x1b', '[', '3', '3', 'm'] + text + reset_seq() + crlf()
    } else if code == seq!['-'] {
        seq![' ', ' ', '-', ' '] + text + crlf()
    } else if code == seq!['.'] {
        seq![' ', ' '] + text + crlf()
    } else if code == seq!['?'] {
        seq!['\x1b', '[', '3', '6', 'm'] + text + reset_seq() + crlf()
    } else if code == seq!['_'] {
        seq!['\x1b', '[', '3', '1', 'm', '\x1b', '[', '4', 'm'] + text + reset_seq() + crlf()
    } else {
        code + seq![' '] + text + crlf()
    }
}

/// The line of help that a line of a help file shows: none for an empty line; otherwise its
/// first character is the code and the rest, trimmed, the text.
pub open spec fn display_line(line: Seq<char>) -> Option<Seq<char>> {
    if line.len() == 0 {
        None
    } else {
        Some(help_line(seq![line[0]], trim(line.drop_first())))
    }
}

/// The name of the program that a help file documents, from its first line: the line without
/// its leading `*`s, trimmed.
pub open spec fn program_name_of(first_line: Seq<char>) -> Seq<char> {
    trim(strip_leading(first_line, '*'))
}

/// The terminal form of one line of help, with attribute code `code` and text `text`.
pub fn format_help_line(code: &str, text: &str) -> (r: String)
    ensures
        r@ == help_line(code@, text@),
{
    let cv = chars_of(code);
    let mut r = String::new();
    let c = if cv.len() == 1 { cv[0] } else { '\0' };
    proof {
        reveal_strlit("\x1b[32m\x1b[1m");
        reveal_strlit("\x1b[33m");
        reveal_strlit("  - ");
        reveal_strlit("  ");
        reveal_strlit("\x1b[36m");
        reveal_strlit("\x1b[31m\x1b[4m");
        reveal_strlit("\x1b[0m\r\n");
        reveal_strlit("\r\n");
        reveal_strlit(" ");
        if cv.len() == 1 {
            assert(code@ =~= seq![c]);
        } else {
            assert(code@ != seq!['*'] && code@ != seq!['!'] && code@ != seq!['-']);
            assert(code@ != seq!['.'] && code@ != seq!['?'] && code@ != seq!['_']);
        }
    }
    if cv.len() == 1 && c == '*' {
        r.append("\x1b[32m\x1b[1m");
        r.append(text);
        r.append("\x1b[0m\r\n");
    } else if cv.len() == 1 && c == '!' {
        r.append("\x1b[33m");
        r.append(text);
        r.append("\x1b[0m\r\n");
    } else if cv.len() == 1 && c == '-' {
        r.append("  - ");
        r.append(text);
        r.append("\r\n");
    } else if cv.len() == 1 && c == '.' {
        r.append("  ");
        r.append(text);
        r.append("\r\n");
    } else if cv.len() == 1 && c == '?' {
        r.append("\x1b[36m");
        r.append(text);
        r.append("\x1b[0m\r\n");
    } else if cv.len() == 1 && c == '_' {
        r.append("\x1b[31m\x1b[4m");
        r.append(text);
        r.append("\x1b[0m\r\n");
    } else {
        r.append(code);
        r.append(" ");
        r.append(text);
        r.append("\r\n");
    }
    assert(r@ =~= help_line(code@, text@));
    r
}

/// The line of help that a line of a help file shows, or `None` for an empty line.
pub fn help_display_line(line: &str) -> (r: Option<String>)
    ensures
        r is None <==> line@.len() == 0,
        r matches Some(s) ==> display_line(line@) == Some(s@),
        r matches Some(s) ==> s@ == help_line(seq![line@[0]], trim(line@.drop_first())),
{
    let v = chars_of(line);
    if v.len() == 0 {
        return None;
    }
    let mut code = String::new();
    push_char(&mut code, v[0]);
    let rest = string_of(&v, 1, v.len());
    assert(rest@ =~= line@.drop_first());
    let text = trim_str(rest.as_str());
    assert(code@ =~= seq![line@[0]]);
    Some(format_help_line(code.as_str(), text.as_str()))
}

/// The name of the program that a help file documents, from the file's first line.
pub fn program_name(first_line: &str) -> (r: String)
    ensures
        r@ == program_name_of(first_line@),
{
    let stripped = strip_leading_str(first_line, '*');
    trim_str(stripped.as_str())
}

/// One line of a help file as the database stores it.
#[derive(Debug)]
pub struct HelpRecord {
    /// Its number in the file, from 1.
    pub ligne: i32,
    /// Its first character.
    pub code_attribut: String,
    /// The rest of the line, trimmed.
    pub text: String,
}

/// The record of line number `ligne` of a help file; the line must not be empty and must begin
/// with an ASCII character.
pub fn help_record(line: &str, ligne: i32) -> (r: HelpRecord)
    requires
        storable(line@),
    ensures
        r.ligne == ligne,
        r.code_attribut@ == seq![line@[0]],
        r.text@ == trim(line@.drop_first()),
{
    let v = chars_of(line);
    let mut code = String::new();
    push_char(&mut code, v[0]);
    let rest = string_of(&v, 1, v.len());
    assert(rest@ =~= line@.drop_first());
    let text = trim_str(rest.as_str());
    HelpRecord { ligne, code_attribut: code, text }
}

/// Why a help file cannot be read.
#[derive(Debug, Clone, Copy, PartialEq, Eq, Structural)]
pub enum HelpError {
    /// The file has no line, so no program name.
    EmptyFile,
}

/// A help file cut into lines; its first line names the program.
#[derive(Debug)]
pub struct HelpFile {
    /// The program's name, from the first line.
    pub programme: String,
    /// All the lines of the file, the first one included.
    pub lines: Vec<String>,
}

/// Cuts a help file into lines and takes the program's name from the first; fails on a file
/// without any line.
pub fn split_help_file(content: &str) -> (r: Result<HelpFile, HelpError>)
    ensures
        r is Err <==> lines(content@).len() == 0,
        r matches Err(e) ==> e == HelpError::EmptyFile,
        r matches Ok(f) ==> {
            &&& f.programme@ == program_name_of(lines(content@)[0])
            &&& f.lines.len() == lines(content@).len()
            &&& forall|k: int| 0 <= k < f.lines.len() ==> #[trigger] f.lines[k]@ == lines(content@)[k]
        },
{
    let ls = split_lines(content);
    if ls.len() == 0 {
        return Err(HelpError::EmptyFile);
    }
    let programme = program_name(ls[0].as_str());
    Ok(HelpFile { programme, lines: ls })
}

/// What the lines of a help file show, empty lines left out, in order.
pub open spec fn display_lines(ls: Seq<Seq<char>>) -> Seq<Seq<char>>
    decreases ls.len(),
{
    if ls.len() == 0 {
        seq![]
    } else {
        display_lines(ls.drop_last()) + match display_line(ls.last()) {
            Some(l) => seq![l],
            None => seq![],
        }
    }
}

/// What the lines `ls[from..]` of a help file show: one line of help per line that is not
/// empty, in order.
pub fn help_display(ls: &Vec<String>, from: usize) -> (r: Vec<String>)
    requires
        from <= ls.len(),
    ensures
        ({
            let src = Seq::new((ls.len() - from) as nat, |k: int| ls[from + k]@);
            &&& r.len() == display_lines(src).len()
            &&& forall|k: int| 0 <= k < r.len() ==> #[trigger] r[k]@ == display_lines(src)[k]
            &&& r.len() == nonempty_count(src)
        }),
{
    proof {
        lemma_display_lines_count(Seq::new((ls.len() - from) as nat, |k: int| ls[from + k]@));
    }
    let ghost all = Seq::new((ls.len() - from) as nat, |k: int| ls[from + k]@);
    let mut r: Vec<String> = Vec::new();
    let mut i = from;
    assert(all.take(0) =~= Seq::<Seq<char>>::empty());
    while i < ls.len()
        invariant
            from <= i <= ls.len(),
            all == Seq::new((ls.len() - from) as nat, |k: int| ls[from + k]@),
            r.len() == display_lines(all.take(i - from)).len(),
            forall|k: int| 0 <= k < r.len() ==> #[trigger] r[k]@ == display_lines(all.take(i - from))[k],
        decreases ls.len() - i,
    {
        let ghost prev = all.take(i - from);
        let ghost next = all.take(i + 1 - from);
        assert(next.drop_last() =~= prev);
        assert(next.last() == ls[i as int]@);
        let shown = help_display_line(ls[i].as_str());
        match shown {
            Some(l) => {
                r.push(l);
            },
            None => {},
        }
        assert(display_lines(next) == display_lines(prev) + match display_line(next.last()) {
            Some(l) => seq![l],
            None => seq![],
        });
        i = i + 1;
    }
    assert(all.take(ls.len() - from) =~= all);
    r
}

/// Whether a line can be stored as a record: it is not empty and its first character is ASCII
/// (the rest of the line is taken from its second byte on).
pub open spec fn storable(line: Seq<char>) -> bool {
    line.len() > 0 && (line[0] as u32) < 128
}

/// The number of lines at the start of `lines` that can be stored: every line before it can, the
/// line at it (if any) cannot.
pub fn storable_prefix_len(lines: &[String]) -> (n: usize)
    ensures
        n <= lines@.len(),
        forall|k: int| 0 <= k < n ==> (#[trigger] lines@[k]@).len() > 0 && (lines@[k]@[0] as u32) < 128,
        n < lines@.len() ==> lines@[n as int]@.len() == 0 || (lines@[n as int]@[0] as u32) >= 128,
        n == lines@.len() <==> forall|k: int| 0 <= k < lines@.len() ==> (#[trigger] lines@[k]@).len() > 0
            && (lines@[k]@[0] as u32) < 128,
        forall|k: int| 0 <= k < n ==> storable(#[trigger] lines@[k]@),
        n < lines@.len() ==> !storable(lines@[n as int]@),
{
    let mut n: usize = 0;
    while n < lines.len()
        invariant
            n <= lines@.len(),
            forall|k: int| 0 <= k < n ==> storable(#[trigger] lines@[k]@),
        decreases lines.len() - n,
    {
        let v = chars_of(lines[n].as_str());
        if v.len() == 0 || v[0] as u32 >= 128 {
            return n;
        }
        n = n + 1;
    }
    n
}

/// The records of the lines of a help file, numbered from 1 in order; every line must be
/// storable.
pub fn help_records(lines: &[String]) -> (r: Vec<HelpRecord>)
    requires
        lines@.len() < i32::MAX,
        forall|k: int| 0 <= k < lines@.len() ==> storable(#[trigger] lines@[k]@),
    ensures
        r.len() == lines@.len(),
        forall|k: int| 0 <= k < r.len() ==> {
            &&& (#[trigger] r[k]).ligne == k + 1
            &&& r[k].code_attribut@ == seq![lines@[k]@[0]]
            &&& r[k].text@ == trim(lines@[k]@.drop_first())
        },
{
    let mut r: Vec<HelpRecord> = Vec::new();
    let mut i: usize = 0;
    while i < lines.len()
        invariant
            i <= lines@.len() < i32::MAX,
            r.len() == i,
            forall|k: int| 0 <= k < lines@.len() ==> storable(#[trigger] lines@[k]@),
            forall|k: int| 0 <= k < r.len() ==> {
                &&& (#[trigger] r[k]).ligne == k + 1
                &&& r[k].code_attribut@ == seq![lines@[k]@[0]]
                &&& r[k].text@ == trim(lines@[k]@.drop_first())
            },
        decreases lines.len() - i,
    {
        assert(storable(lines@[i as int]@));
        let line = lines[i].as_str();
        r.push(help_record(line, (i + 1) as i32));
        i = i + 1;
    }
    r
}

/// The number of lines of `ls` that are not empty.
pub open spec fn nonempty_count(ls: Seq<Seq<char>>) -> nat
    decreases ls.len(),
{
    if ls.len() == 0 {
        0
    } else {
        nonempty_count(ls.drop_last()) + if ls.last().len() > 0 { 1nat } else { 0nat }
    }
}

/// A line added after others shows, after what they show, as its code and its trimmed rest if it
/// is not empty (a line holding only its code shows with an empty text), and adds nothing if it
/// is empty.
pub proof fn lemma_display_lines_push(ls: Seq<Seq<char>>, line: Seq<char>)
    ensures
        display_lines(Seq::<Seq<char>>::empty()) == Seq::<Seq<char>>::empty(),
        line.len() > 0 ==> display_lines(ls.push(line)) == display_lines(ls).push(
            help_line(seq![line[0]], trim(line.drop_first())),
        ),
        line.len() == 0 ==> display_lines(ls.push(line)) == display_lines(ls),
{
    assert(ls.push(line).drop_last() =~= ls);
    assert(display_lines(ls) + Seq::<Seq<char>>::empty() =~= display_lines(ls));
    assert(display_lines(ls) + seq![help_line(seq![line[0]], trim(line.drop_first()))]
        =~= display_lines(ls).push(help_line(seq![line[0]], trim(line.drop_first()))));
}

/// There is exactly one line shown per line that is not empty.
pub proof fn lemma_display_lines_count(ls: Seq<Seq<char>>)
    ensures
        display_lines(ls).len() == nonempty_count(ls),
    decreases ls.len(),
{
    if ls.len() > 0 {
        lemma_display_lines_count(ls.drop_last());
    }
}

/// Each line that is not empty shows, in order, as its first character for the code and its
/// trimmed rest for the text: line `k` is the one shown after those of the non-empty lines
/// before it.
pub proof fn lemma_display_lines_index(ls: Seq<Seq<char>>, k: int)
    requires
        0 <= k < ls.len(),
        ls[k].len() > 0,
    ensures
        nonempty_count(ls.take(k)) < display_lines(ls).len(),
        display_lines(ls)[nonempty_count(ls.take(k)) as int] == help_line(
            seq![ls[k][0]],
            trim(ls[k].drop_first()),
        ),
    decreases ls.len(),
{
    let prev = ls.drop_last();
    lemma_display_lines_count(prev);
    if k == ls.len() - 1 {
        assert(ls.take(k) =~= prev);
        assert(ls =~= prev.push(ls[k]));
        lemma_display_lines_push(prev, ls[k]);
    } else {
        lemma_display_lines_index(prev, k);
        assert(prev.take(k) =~= ls.take(k));
        assert(ls =~= prev.push(ls.last()));
        lemma_display_lines_push(prev, ls.last());
    }
}

/// A line can be stored exactly when it is not empty and its first character is ASCII, so that
/// the rest of the line starts at its second byte; a line of one character is stored with an
/// empty text.
pub proof fn lemma_storable_exactly(line: Seq<char>)
    ensures
        storable(line) <==> (line.len() > 0 && (line[0] as u32) < 128),
{
}

/// What each attribute code writes around its text, and that any other code is written before
/// the text with a space between: every line ends with CR LF.
pub proof fn lemma_help_line_codes(code: Seq<char>, text: Seq<char>)
    ensures
        help_line(seq!['*'], text) == seq!['\x1b', '[', '3', '2', 'm', '\x1b', '[', '1', 'm'] + text
            + seq!['\x1b', '[', '0', 'm', '\r', '\n'],
        help_line(seq!['!'], text) == seq!['\x1b', '[', '3', '3', 'm'] + text + seq!['\x1b', '[', '0',
            'm', '\r', '\n'],
        help_line(seq!['-'], text) == seq![' ', ' ', '-', ' '] + text + seq!['\r', '\n'],
        help_line(seq!['.'], text) == seq![' ', ' '] + text + seq!['\r', '\n'],
        help_line(seq!['?'], text) == seq!['\x1b', '[', '3', '6', 'm'] + text + seq!['\x1b', '[', '0',
            'm', '\r', '\n'],
        help_line(seq!['_'], text) == seq!['\x1b', '[', '3', '1', 'm', '\x1b', '[', '4', 'm'] + text
            + seq!['\x1b', '[', '0', 'm', '\r', '\n'],
        code != seq!['*'] && code != seq!['!'] && code != seq!['-'] && code != seq!['.'] && code
            != seq!['?'] && code != seq!['_'] ==> help_line(code, text) == code + seq![' '] + text
            + seq!['\r', '\n'],
{
    let st = seq!['*'];
    let ex = seq!['!'];
    let da = seq!['-'];
    let dt = seq!['.'];
    let qu = seq!['?'];
    let un = seq!['_'];
    assert(st[0] == '*' && ex[0] == '!' && da[0] == '-' && dt[0] == '.' && qu[0] == '?' && un[0] == '_');
    assert(ex != st && da != st && da != ex && dt != st && dt != ex && dt != da);
    assert(qu != st && qu != ex && qu != da && qu != dt);
    assert(un != st && un != ex && un != da && un != dt && un != qu);
    assert(help_line(st, text) =~= seq!['\x1b', '[', '3', '2', 'm', '\x1b', '[', '1', 'm'] + text
        + seq!['\x1b', '[', '0', 'm', '\r', '\n']);
    assert(help_line(ex, text) =~= seq!['\x1b', '[', '3', '3', 'm'] + text + seq!['\x1b', '[', '0',
        'm', '\r', '\n']);
    assert(help_line(da, text) =~= seq![' ', ' ', '-', ' '] + text + seq!['\r', '\n']);
    assert(help_line(dt, text) =~= seq![' ', ' '] + text + seq!['\r', '\n']);
    assert(help_line(qu, text) =~= seq!['\x1b', '[', '3', '6', 'm'] + text + seq!['\x1b', '[', '0',
        'm', '\r', '\n']);
    assert(help_line(un, text) =~= seq!['\x1b', '[', '3', '1', 'm', '\x1b', '[', '4', 'm'] + text
        + seq!['\x1b', '[', '0', 'm', '\r', '\n']);
    assert(help_line(code, text) =~= code + seq![' '] + text + seq!['\r', '\n'] || code == st
        || code == ex || code == da || code == dt || code == qu || code == un);
}

/// The SQL statement that deletes the help of a program.
pub fn delete_statement(programme: &str) -> (r: String)
    ensures
        r@ == "DELETE FROM help WHERE programme = '"@ + programme@ + "' "@,
{
    let mut r = String::new();
    r.append("DELETE FROM help WHERE programme = '");
    r.append(programme);
    r.append("' ");
    r
}

/// The footer under a help: how to leave.
pub fn escape_footer() -> (r: String)
    ensures
        r@ == "\r\n\x1b[36mAppuyez sur [Esc] pour quitter...\x1b[0m\r\n"@,
{
    let mut r = String::new();
    r.append("\r\n\x1b[36mAppuyez sur [Esc] pour quitter...\x1b[0m\r\n");
    r
}

/// The header over a help read back from the database.
pub fn check_header() -> (r: String)
    ensures
        r@ == "\r\n\x1b[36mControler...\x1b[0m\r\n"@,
{
    let mut r = String::new();
    r.append("\r\n\x1b[36mControler...\x1b[0m\r\n");
    r
}

/// The message for a missing command-line argument.
pub fn usage_message(program: &str) -> (r: String)
    ensures
        r@ == "Usage: "@ + program@ + " <nom_du_programme>"@,
{
    let mut r = String::new();
    r.append("Usage: ");
    r.append(program);
    r.append(" <nom_du_programme>");
    r
}

/// The message for a database file that does not exist.
pub fn missing_database_message(path: &str) -> (r: String)
    ensures
        r@ == "\x1b[31mErreur : Le fichier de la base SQLite "@ + path@
            + " n'existe pas.\x1b[0m\r\n"@,
{
    let mut r = String::new();
    r.append("\x1b[31mErreur : Le fichier de la base SQLite ");
    r.append(path);
    r.append(" n'existe pas.\x1b[0m\r\n");
    r
}

/// The message for a database that cannot be opened, with the error's text.
pub fn open_error_message(error: &str) -> (r: String)
    ensures
        r@ == "\x1b[31mErreur : Impossible d'ouvrir la base SQLite : "@ + error@
            + "\x1b[0m\r\n"@,
{
    let mut r = String::new();
    r.append("\x1b[31mErreur : Impossible d'ouvrir la base SQLite : ");
    r.append(error);
    r.append("\x1b[0m\r\n");
    r
}

/// The message for a program that has no help in the database.
pub fn no_help_message(programme: &str) -> (r: String)
    ensures
        r@ == "\x1b[31mAucune aide trouvée pour le programme '"@ + programme@ + "'."@,
{
    let mut r = String::new();
    r.append("\x1b[31mAucune aide trouvée pour le programme '");
    r.append(programme);
    r.append("'.");
    r
}

/// The message for a help file that does not exist.
pub fn missing_file_message(path: &str) -> (r: String)
    ensures
        r@ == "\x1b[31mErreur : Le fichier '"@ + path@ + "' est introuvable.\x1b[0m\r\n"@,
{
    let mut r = String::new();
    r.append("\x1b[31mErreur : Le fichier '");
    r.append(path);
    r.append("' est introuvable.\x1b[0m\r\n");
    r
}

spec fn help_head(code: Seq<char>) -> Seq<char> {
    if code == seq!['*'] {
        seq!['\x1b', '[', '3', '2', 'm', '\x1b', '[', '1', 'm']
    } else if code == seq!['!'] {
        seq!['\x1b', '[', '3', '3', 'm']
    } else if code == seq!['-'] {
        seq![' ', ' ', '-', ' ']
    } else if code == seq!['.'] {
        seq![' ', ' ']
    } else if code == seq!['?'] {
        seq!['\x1b', '[', '3', '6', 'm']
    } else if code == seq!['_'] {
        seq!['\x1b', '[', '3', '1', 'm', '\x1b', '[', '4', 'm']
    } else {
        code + seq![' ']
    }
}

/// Every line of help ends with CR LF, its text stands whole just before the line's end (after
/// a reset where the line is colored), and a colored line resets the attributes: each line
/// starts on the left margin with the default look.
pub proof fn lemma_help_line_shape(code: Seq<char>, text: Seq<char>)
    ensures
        ({
            let l = help_line(code, text);
            let styled = code == seq!['*'] || code == seq!['!'] || code == seq!['?']
                || code == seq!['_'];
            let tail = if styled { reset_seq() + crlf() } else { crlf() };
            &&& l.len() >= text.len() + tail.len()
            &&& l.subrange(l.len() - 2, l.len() as int) == crlf()
            &&& l.subrange(l.len() - tail.len(), l.len() as int) == tail
            &&& l.subrange(l.len() - tail.len() - text.len(), l.len() - tail.len()) == text
        }),
{
    let l = help_line(code, text);
    let styled = code == seq!['*'] || code == seq!['!'] || code == seq!['?'] || code == seq!['_'];
    let tail = if styled { reset_seq() + crlf() } else { crlf() };
    let head = help_head(code);
    if code == seq!['*'] {
        assert(l =~= head + text + tail);
    } else if code == seq!['!'] {
        assert(l =~= head + text + tail);
    } else if code == seq!['-'] {
        assert(code[0] == '-');
        assert(seq!['*'][0] == '*' && seq!['!'][0] == '!' && seq!['?'][0] == '?' && seq!['_'][0] == '_');
        assert(!styled);
        assert(l =~= head + text + tail);
    } else if code == seq!['.'] {
        assert(code[0] == '.');
        assert(seq!['*'][0] == '*' && seq!['!'][0] == '!' && seq!['?'][0] == '?' && seq!['_'][0] == '_');
        assert(!styled);
        assert(l =~= head + text + tail);
    } else if code == seq!['?'] {
        assert(l =~= head + text + tail);
    } else if code == seq!['_'] {
        assert(l =~= head + text + tail);
    } else {
        assert(l =~= head + text + tail);
    }
    assert(l.subrange(l.len() - 2, l.len() as int) =~= crlf());
    assert(l.subrange(l.len() - tail.len(), l.len() as int) =~= tail);
    assert(l.subrange(l.len() - tail.len() - text.len(), l.len() - tail.len()) =~= text);
}

} // verus!
