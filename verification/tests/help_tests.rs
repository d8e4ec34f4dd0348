use gen_doc::help::{
    check_header, delete_statement, escape_footer, format_help_line, help_display,
    help_display_line, help_record, missing_database_message, missing_file_message,
    no_help_message, open_error_message, program_name, split_help_file, usage_message, HelpError,
};

#[test]
fn help_line_codes() {
    assert_eq!(format_help_line("*", "Titre"), "\x1B[32m\x1B[1mTitre\x1B[0m\r\n");
    assert_eq!(format_help_line("!", "Attention"), "\x1B[33mAttention\x1B[0m\r\n");
    assert_eq!(format_help_line("-", "item"), "  - item\r\n");
    assert_eq!(format_help_line(".", "suite"), "  suite\r\n");
    assert_eq!(format_help_line("?", "astuce"), "\x1B[36mastuce\x1B[0m\r\n");
    assert_eq!(format_help_line("_", "important"), "\x1B[31m\x1B[4mimportant\x1B[0m\r\n");
}

#[test]
fn help_line_other_codes() {
    assert_eq!(format_help_line("#", "texte"), "# texte\r\n");
    assert_eq!(format_help_line("**", "x"), "** x\r\n");
    assert_eq!(format_help_line("", "x"), " x\r\n");
    assert_eq!(format_help_line("é", ""), "é \r\n");
}

#[test]
fn every_help_line_ends_with_crlf() {
    for code in ["*", "!", "-", ".", "?", "_", "x", "", "ab"] {
        let l = format_help_line(code, "t");
        assert!(l.ends_with("t\r\n") || l.ends_with("t\x1B[0m\r\n"));
    }
}

#[test]
fn display_line_splits_code_and_trims() {
    assert_eq!(help_display_line("*  Titre  ").unwrap(), "\x1B[32m\x1B[1mTitre\x1B[0m\r\n");
    assert_eq!(help_display_line("-\titem\u{3000}").unwrap(), "  - item\r\n");
    assert_eq!(help_display_line("Z reste").unwrap(), "Z reste\r\n");
    assert_eq!(help_display_line("é reste").unwrap(), "é reste\r\n");
    assert_eq!(help_display_line("?").unwrap(), "\x1B[36m\x1B[0m\r\n");
}

#[test]
fn display_line_skips_empty() {
    assert!(help_display_line("").is_none());
    assert_eq!(help_display_line(" ").unwrap(), "  \r\n");
}

#[test]
fn program_name_from_first_line() {
    assert_eq!(program_name("** dspdoc  "), "dspdoc");
    assert_eq!(program_name("gendoc"), "gendoc");
    assert_eq!(program_name("* * x"), "* x");
    assert_eq!(program_name("***"), "");
}

#[test]
fn record_of_line() {
    let r = help_record("*  Titre ", 3);
    assert_eq!(r.ligne, 3);
    assert_eq!(r.code_attribut, "*");
    assert_eq!(r.text, "Titre");
    let r = help_record("x", 1);
    assert_eq!(r.code_attribut, "x");
    assert_eq!(r.text, "");
}

#[test]
fn split_file() {
    let f = split_help_file("* prog\r\n-a\n\n.b").unwrap();
    assert_eq!(f.programme, "prog");
    assert_eq!(f.lines, vec!["* prog", "-a", "", ".b"]);
}

#[test]
fn split_file_empty() {
    assert_eq!(split_help_file("").unwrap_err(), HelpError::EmptyFile);
}

#[test]
fn split_file_lines_agree_with_std() {
    for content in ["a\nb\n", "a\r\nb", "\n", "\n\n", "x\r", "a\rb\r\n", "é\n\u{85}"] {
        let f = split_help_file(content).unwrap();
        let expected: Vec<&str> = content.lines().collect();
        assert_eq!(f.lines, expected);
    }
}

#[test]
fn display_skips_first_and_empty_lines() {
    let lines: Vec<String> = vec!["* prog".into(), "-a".into(), "".into(), "!b ".into()];
    let shown = help_display(&lines, 1);
    assert_eq!(shown, vec!["  - a\r\n".to_string(), "\x1B[33mb\x1B[0m\r\n".to_string()]);
    assert!(help_display(&lines, 4).is_empty());
}

#[test]
fn delete_sql() {
    assert_eq!(delete_statement("dspdoc"), "DELETE FROM help WHERE programme = 'dspdoc' ");
}

#[test]
fn messages() {
    assert_eq!(escape_footer(), "\r\n\x1B[36mAppuyez sur [Esc] pour quitter...\x1B[0m\r\n");
    assert_eq!(check_header(), "\r\n\x1B[36mControler...\x1B[0m\r\n");
    assert_eq!(usage_message("dspdoc"), "Usage: dspdoc <nom_du_programme>");
    assert_eq!(
        missing_database_message("/h/db"),
        "\x1B[31mErreur : Le fichier de la base SQLite /h/db n'existe pas.\x1B[0m\r\n"
    );
    assert_eq!(
        open_error_message("boom"),
        "\x1B[31mErreur : Impossible d'ouvrir la base SQLite : boom\x1B[0m\r\n"
    );
    assert_eq!(no_help_message("p"), "\x1B[31mAucune aide trouvée pour le programme 'p'.");
    assert_eq!(
        missing_file_message("help_pgm.txt"),
        "\x1B[31mErreur : Le fichier 'help_pgm.txt' est introuvable.\x1B[0m\r\n"
    );
}

#[test]
fn records_numbered_from_one() {
    let lines: Vec<String> = vec!["* prog".into(), "-  a ".into(), "x".into()];
    let r = gen_doc::help::help_records(&lines);
    assert_eq!(r.len(), 3);
    assert_eq!((r[0].ligne, r[0].code_attribut.as_str(), r[0].text.as_str()), (1, "*", "prog"));
    assert_eq!((r[1].ligne, r[1].code_attribut.as_str(), r[1].text.as_str()), (2, "-", "a"));
    assert_eq!((r[2].ligne, r[2].code_attribut.as_str(), r[2].text.as_str()), (3, "x", ""));
    assert!(gen_doc::help::help_records(&[]).is_empty());
}

#[test]
fn storable_prefix() {
    let ok: Vec<String> = vec!["* p".into(), "-a".into()];
    assert_eq!(gen_doc::help::storable_prefix_len(&ok), 2);
    let empty_line: Vec<String> = vec!["* p".into(), "".into(), "-a".into()];
    assert_eq!(gen_doc::help::storable_prefix_len(&empty_line), 1);
    let accented: Vec<String> = vec!["é p".into()];
    assert_eq!(gen_doc::help::storable_prefix_len(&accented), 0);
    assert_eq!(gen_doc::help::storable_prefix_len(&[]), 0);
}
