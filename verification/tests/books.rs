use kernel::books::{cmd_add, cmd_remove, cmd_year, parse, parse_words, set_year, Book, Command, Error};

fn shelf(titles: &[&str]) -> Vec<Book> {
    titles.iter().map(|t| Book::new(t.to_string())).collect()
}

fn titles(books: &[Book]) -> Vec<&str> {
    books.iter().map(|b| b.title.as_str()).collect()
}

fn years(books: &[Book]) -> Vec<Option<i32>> {
    books.iter().map(|b| b.year).collect()
}

#[test]
fn new_book_has_no_year() {
    let book = Book::new("dune".to_string());
    assert_eq!(book.title, "dune");
    assert_eq!(book.year, None);
}

#[test]
fn parse_reads_commands_with_their_arguments() {
    assert!(matches!(parse("add dune".to_string()), Ok(Command::Add(t)) if t == "dune"));
    assert!(matches!(
        parse("  year   dune \t 1965\n".to_string()),
        Ok(Command::Year(t, y)) if t == "dune" && y == "1965"
    ));
    assert!(matches!(parse("rem dune".to_string()), Ok(Command::Remove(t)) if t == "dune"));
    assert!(matches!(parse("show".to_string()), Ok(Command::Show)));
    assert!(matches!(parse("help\n".to_string()), Ok(Command::Help)));
    assert!(matches!(parse("quit".to_string()), Ok(Command::Quit)));
    // what comes behind a command without arguments does not matter
    assert!(matches!(parse("show me all".to_string()), Ok(Command::Show)));
    assert!(matches!(parse("quit now".to_string()), Ok(Command::Quit)));
}

#[test]
fn parse_misses_arguments() {
    for line in ["", "   ", "\n", "add", "add a b", "year", "year dune", "year a b c", "rem", "rem a b"] {
        assert!(matches!(parse(line.to_string()), Err(Error::MissingArg)), "{:?}", line);
    }
}

#[test]
fn parse_rejects_unknown_commands() {
    for line in ["ad dune", "Add dune", "remove dune", "age dune 3", "shows", "?", "add\u{200b}x"] {
        assert!(matches!(parse(line.to_string()), Err(Error::UnknownCmd)), "{:?}", line);
    }
}

#[test]
fn parse_words_takes_the_words_as_they_are() {
    assert!(matches!(parse_words(&vec![]), Err(Error::MissingArg)));
    assert!(matches!(parse_words(&vec!["add", "a b"]), Ok(Command::Add(t)) if t == "a b"));
    assert!(matches!(parse_words(&vec!["year", "", ""]), Ok(Command::Year(t, y)) if t == "" && y == ""));
    assert!(matches!(parse_words(&vec!["", "add"]), Err(Error::UnknownCmd)));
    assert!(matches!(parse_words(&vec!["rem"]), Err(Error::MissingArg)));
}

#[test]
fn cmd_add_appends_a_new_book() {
    let mut books = Vec::new();
    assert_eq!(cmd_add(&mut books, "dune".to_string()), Ok(()));
    assert_eq!(cmd_add(&mut books, "emma".to_string()), Ok(()));
    assert_eq!(titles(&books), ["dune", "emma"]);
    assert_eq!(years(&books), [None, None]);
}

#[test]
fn cmd_add_refuses_a_title_twice() {
    let mut books = shelf(&["dune", "emma"]);
    books[1].year = Some(1815);
    assert_eq!(cmd_add(&mut books, "emma".to_string()), Err(Error::Exists));
    assert_eq!(cmd_add(&mut books, "dune".to_string()), Err(Error::Exists));
    assert_eq!(titles(&books), ["dune", "emma"]);
    assert_eq!(years(&books), [None, Some(1815)]);
    // titles differ by case
    assert_eq!(cmd_add(&mut books, "Dune".to_string()), Ok(()));
    assert_eq!(titles(&books), ["dune", "emma", "Dune"]);
}

#[test]
fn cmd_year_sets_the_year_of_the_first_match() {
    let mut books = shelf(&["dune", "emma", "dune"]);
    assert_eq!(cmd_year(&mut books, "dune".to_string(), "1965".to_string()), Ok(()));
    assert_eq!(years(&books), [Some(1965), None, None]);
    assert_eq!(cmd_year(&mut books, "emma".to_string(), "-3".to_string()), Ok(()));
    assert_eq!(cmd_year(&mut books, "dune".to_string(), "+7".to_string()), Ok(()));
    assert_eq!(years(&books), [Some(7), Some(-3), None]);
    assert_eq!(titles(&books), ["dune", "emma", "dune"]);
}

#[test]
fn cmd_year_fails_for_unknown_titles_and_bad_numbers() {
    let mut books = shelf(&["dune"]);
    books[0].year = Some(1);
    assert_eq!(cmd_year(&mut books, "emma".to_string(), "1815".to_string()), Err(Error::NotFound));
    // an unknown title is found out before a bad number
    assert_eq!(cmd_year(&mut books, "emma".to_string(), "x".to_string()), Err(Error::NotFound));
    for year in ["", "x", "19 65", "1965a", "2147483648", "-2147483649", "1.5", "--1"] {
        assert_eq!(
            cmd_year(&mut books, "dune".to_string(), year.to_string()),
            Err(Error::ParseFailed)
        );
    }
    assert_eq!(years(&books), [Some(1)]);
    assert_eq!(cmd_year(&mut books, "dune".to_string(), "2147483647".to_string()), Ok(()));
    assert_eq!(cmd_year(&mut books, "dune".to_string(), "-2147483648".to_string()), Ok(()));
    assert_eq!(years(&books), [Some(i32::MIN)]);
}

#[test]
fn set_year_takes_a_number_or_fails() {
    let mut books = shelf(&["dune", "emma"]);
    assert_eq!(set_year(&mut books, 1, Some(1815)), Ok(()));
    assert_eq!(years(&books), [None, Some(1815)]);
    assert_eq!(set_year(&mut books, 1, None), Err(Error::ParseFailed));
    assert_eq!(years(&books), [None, Some(1815)]);
    assert_eq!(set_year(&mut books, 0, Some(0)), Ok(()));
    assert_eq!(years(&books), [Some(0), Some(1815)]);
}

#[test]
fn cmd_remove_removes_every_book_of_the_title() {
    let mut books = shelf(&["dune", "emma", "dune", "ulysses", "dune"]);
    books[3].year = Some(1922);
    assert_eq!(cmd_remove(&mut books, "dune".to_string()), Ok(()));
    assert_eq!(titles(&books), ["emma", "ulysses"]);
    assert_eq!(years(&books), [None, Some(1922)]);
    assert_eq!(cmd_remove(&mut books, "ulysses".to_string()), Ok(()));
    assert_eq!(titles(&books), ["emma"]);
    assert_eq!(cmd_remove(&mut books, "emma".to_string()), Ok(()));
    assert!(books.is_empty());
}

#[test]
fn cmd_remove_fails_for_unknown_titles() {
    let mut books = shelf(&["dune", "emma"]);
    assert_eq!(cmd_remove(&mut books, "ulysses".to_string()), Err(Error::NotFound));
    assert_eq!(cmd_remove(&mut books, "".to_string()), Err(Error::NotFound));
    assert_eq!(titles(&books), ["dune", "emma"]);
    let mut none: Vec<Book> = Vec::new();
    assert_eq!(cmd_remove(&mut none, "dune".to_string()), Err(Error::NotFound));
}
