//! A list of books that is kept by commands.

use crate::text::{number_of, same, split_whitespace, to_number, views, words_of};
use vstd::prelude::*;

verus! {

/// A book: its title, and the year in which it was published, if that is
/// known.
pub struct Book {
    pub title: String,
    pub year: Option<i32>,
}

impl Book {
    /// A book with the given title whose year is not known
    pub fn new(title: String) -> (book: Book)
        ensures
            book.title == title,
            book.year.is_none(),
    {
        Book { title, year: None }
    }
}

/// What can be asked for.
pub enum Command {
    Add(String),
    Year(String, String),
    Remove(String),
    Show,
    Help,
    Quit,
}

/// Why a command was not carried out.
#[derive(Clone, Copy, Debug, PartialEq, Eq, Structural)]
pub enum Error {
    MissingArg,
    UnknownCmd,
    ReadFailed,
    ParseFailed,
    NotFound,
    Exists,
}

/// Whether `r` is what the command means whose words are `words`.
///
/// The first word names the command. `add` and `rem` take one more word,
/// `year` takes two, and `show`, `help` and `quit` take what they get. A
/// command without a word, or with another number of words than it takes,
/// misses an argument.
pub open spec fn parsed(words: Seq<Seq<char>>, r: Result<Command, Error>) -> bool {
    if words.len() == 0 {
        r == Err::<Command, Error>(Error::MissingArg)
    } else if words[0] == "add"@ {
        if words.len() != 2 {
            r == Err::<Command, Error>(Error::MissingArg)
        } else {
            r matches Ok(Command::Add(title)) && title@ == words[1]
        }
    } else if words[0] == "year"@ {
        if words.len() != 3 {
            r == Err::<Command, Error>(Error::MissingArg)
        } else {
            r matches Ok(Command::Year(title, year)) && title@ == words[1] && year@ == words[2]
        }
    } else if words[0] == "rem"@ {
        if words.len() != 2 {
            r == Err::<Command, Error>(Error::MissingArg)
        } else {
            r matches Ok(Command::Remove(title)) && title@ == words[1]
        }
    } else if words[0] == "show"@ {
        r matches Ok(Command::Show)
    } else if words[0] == "help"@ {
        r matches Ok(Command::Help)
    } else if words[0] == "quit"@ {
        r matches Ok(Command::Quit)
    } else {
        r == Err::<Command, Error>(Error::UnknownCmd)
    }
}

/// Returns the command whose words are `parts`
pub fn parse_words(parts: &Vec<&str>) -> (r: Result<Command, Error>)
    ensures
        parsed(views(parts@), r),
{
    if parts.len() == 0 {
        return Err(Error::MissingArg);
    }
    assert(views(parts@)[0] == parts@[0]@);
    if same(parts[0], "add") {
        if parts.len() != 2 {
            return Err(Error::MissingArg);
        }
        assert(views(parts@)[1] == parts@[1]@);
        Ok(Command::Add(parts[1].to_owned()))
    } else if same(parts[0], "year") {
        if parts.len() != 3 {
            return Err(Error::MissingArg);
        }
        assert(views(parts@)[1] == parts@[1]@);
        assert(views(parts@)[2] == parts@[2]@);
        Ok(Command::Year(parts[1].to_owned(), parts[2].to_owned()))
    } else if same(parts[0], "rem") {
        if parts.len() != 2 {
            return Err(Error::MissingArg);
        }
        assert(views(parts@)[1] == parts@[1]@);
        Ok(Command::Remove(parts[1].to_owned()))
    } else if same(parts[0], "show") {
        Ok(Command::Show)
    } else if same(parts[0], "help") {
        Ok(Command::Help)
    } else if same(parts[0], "quit") {
        Ok(Command::Quit)
    } else {
        Err(Error::UnknownCmd)
    }
}

/// Returns the command that the line `cmd` stands for
pub fn parse(cmd: String) -> (r: Result<Command, Error>)
    ensures
        parsed(words_of(cmd@), r),
{
    let parts = split_whitespace(cmd.as_str());
    parse_words(&parts)
}

/// Index of the first of `books` with the title `title`, or the number of
/// books if there is none.
pub open spec fn position(books: Seq<Book>, title: Seq<char>) -> int
    decreases books.len(),
{
    if books.len() == 0 {
        0
    } else if books[0].title@ == title {
        0
    } else {
        1 + position(books.drop_first(), title)
    }
}

/// Whether one of `books` has the title `title`.
pub open spec fn has_title(books: Seq<Book>, title: Seq<char>) -> bool {
    exists|i: int| 0 <= i < books.len() && (#[trigger] books[i]).title@ == title
}

/// Those of `books` that do not have the title `title`, in their order.
pub open spec fn without(books: Seq<Book>, title: Seq<char>) -> Seq<Book>
    decreases books.len(),
{
    if books.len() == 0 {
        books
    } else if books.last().title@ == title {
        without(books.drop_last(), title)
    } else {
        without(books.drop_last(), title).push(books.last())
    }
}

/// The first book with a given title is a book with that title, and no book
/// before it has the title; there is none only if no book has the title.
pub proof fn lemma_position(books: Seq<Book>, title: Seq<char>)
    ensures
        0 <= position(books, title) <= books.len(),
        position(books, title) < books.len() <==> has_title(books, title),
        position(books, title) < books.len() ==> books[position(books, title)].title@ == title,
        forall|i: int| 0 <= i < position(books, title) ==> (#[trigger] books[i]).title@ != title,
    decreases books.len(),
{
    if books.len() > 0 && books[0].title@ != title {
        let rest = books.drop_first();
        lemma_position(rest, title);
        let p = position(rest, title);
        assert forall|i: int| 0 <= i < 1 + p implies (#[trigger] books[i]).title@ != title by {
            if i > 0 {
                assert(rest[i - 1].title@ != title);
            }
        }
        if p < rest.len() {
            assert(books[1 + p] == rest[p]);
        } else {
            if has_title(books, title) {
                let i = choose|i: int| 0 <= i < books.len() && (#[trigger] books[i]).title@ == title;
                assert(rest[i - 1].title@ == title);
            }
        }
    } else if books.len() > 0 {
        assert(books[0].title@ == title);
    }
}

/// Returns the index of the first of `books` with the title `title`
fn find(books: &Vec<Book>, title: &String) -> (r: Option<usize>)
    ensures
        r matches Some(i) ==> i == position(books@, title@) && i < books.len(),
        r.is_none() ==> position(books@, title@) == books.len(),
{
    let mut i: usize = 0;
    while i < books.len()
        invariant
            i <= books.len(),
            forall|j: int| 0 <= j < i ==> (#[trigger] books@[j]).title@ != title@,
        decreases books.len() - i,
    {
        if books[i].title == *title {
            proof {
                lemma_position(books@, title@);
                let p = position(books@, title@);
                if p < i {
                    assert(books@[p].title@ == title@);
                }
            }
            return Some(i);
        }
        i = i + 1;
    }
    proof {
        lemma_position(books@, title@);
        let p = position(books@, title@);
        if p < books.len() {
            assert(books@[p].title@ == title@);
        }
    }
    None
}

/// Adds a book with the title `title`, unless there is one already
pub fn cmd_add(books: &mut Vec<Book>, title: String) -> (r: Result<(), Error>)
    ensures
        has_title(old(books)@, title@) ==> r == Err::<(), Error>(Error::Exists) && final(books)@
            == old(books)@,
        !has_title(old(books)@, title@) ==> r.is_ok() && final(books)@ == old(books)@.push(
            Book { title, year: None },
        ),
{
    proof {
        lemma_position(books@, title@);
    }
    if find(books, &title).is_some() {
        return Err(Error::Exists);
    }
    books.push(Book::new(title));
    Ok(())
}

/// Sets the year of the first book with the title `title` to the number
/// that `year` stands for
pub fn cmd_year(books: &mut Vec<Book>, title: String, year: String) -> (r: Result<(), Error>)
    ensures
        !has_title(old(books)@, title@) ==> r == Err::<(), Error>(Error::NotFound) && final(books)@
            == old(books)@,
        has_title(old(books)@, title@) ==> match number_of(year@) {
            None => r == Err::<(), Error>(Error::ParseFailed) && final(books)@ == old(books)@,
            Some(n) => r.is_ok() && final(books)@ == old(books)@.update(
                position(old(books)@, title@),
                Book {
                    title: old(books)@[position(old(books)@, title@)].title,
                    year: Some(n),
                },
            ),
        },
{
    proof {
        lemma_position(books@, title@);
    }
    let i = match find(books, &title) {
        Some(i) => i,
        None => {
            return Err(Error::NotFound);
        },
    };
    set_year(books, i, to_number(year.as_str()))
}

/// Sets the year of book `i` to `year`, if that is a number
pub fn set_year(books: &mut Vec<Book>, i: usize, year: Option<i32>) -> (r: Result<(), Error>)
    requires
        i < old(books).len(),
    ensures
        match year {
            None => r == Err::<(), Error>(Error::ParseFailed) && final(books)@ == old(books)@,
            Some(n) => r.is_ok() && final(books)@ == old(books)@.update(
                i as int,
                Book { title: old(books)@[i as int].title, year: Some(n) },
            ),
        },
{
    match year {
        Some(n) => {
            books[i].year = Some(n);
            Ok(())
        },
        None => Err(Error::ParseFailed),
    }
}

/// Removes the books with the title `title`
pub fn cmd_remove(books: &mut Vec<Book>, title: String) -> (r: Result<(), Error>)
    ensures
        !has_title(old(books)@, title@) ==> r == Err::<(), Error>(Error::NotFound) && final(books)@
            == old(books)@,
        has_title(old(books)@, title@) ==> r.is_ok() && final(books)@ == without(
            old(books)@,
            title@,
        ),
{
    proof {
        lemma_position(books@, title@);
    }
    if find(books, &title).is_none() {
        return Err(Error::NotFound);
    }
    let mut i: usize = books.len();
    assert(books@.take(i as int) =~= old(books)@.take(i as int));
    assert(books@.skip(i as int) =~= skipped(old(books)@, title@, i as int));
    while i > 0
        invariant
            i <= books.len(),
            i <= old(books).len(),
            books@.take(i as int) == old(books)@.take(i as int),
            books@.skip(i as int) == skipped(old(books)@, title@, i as int),
        decreases i,
    {
        i = i - 1;
        let ghost before = books@;
        assert(before[i as int] == old(books)@[i as int]) by {
            assert(before.take(i + 1)[i as int] == old(books)@.take(i + 1)[i as int]);
        }
        assert(before.take(i as int) =~= old(books)@.take(i as int)) by {
            assert(before.take(i + 1).take(i as int) =~= before.take(i as int));
            assert(old(books)@.take(i + 1).take(i as int) =~= old(books)@.take(i as int));
        }
        if books[i].title == title {
            books.remove(i);
            assert(books@.skip(i as int) =~= before.skip(i + 1));
            assert(books@.take(i as int) =~= before.take(i as int));
        } else {
            assert(books@.skip(i as int) =~= seq![before[i as int]] + before.skip(i + 1));
        }
    }
    proof {
        lemma_skipped_all(old(books)@, title@);
        assert(books@.skip(0) == books@);
    }
    Ok(())
}

/// Those of `books` from index `from` on that do not have the title
/// `title`, in their order.
pub open spec fn skipped(books: Seq<Book>, title: Seq<char>, from: int) -> Seq<Book>
    decreases books.len() - from,
{
    if from >= books.len() {
        Seq::<Book>::empty()
    } else if books[from].title@ == title {
        skipped(books, title, from + 1)
    } else {
        seq![books[from]] + skipped(books, title, from + 1)
    }
}

/// What is left of the first `n` books and what is left of the books from
/// `n` on make up what is left of all books.
proof fn lemma_skipped(books: Seq<Book>, title: Seq<char>, n: int)
    requires
        0 <= n <= books.len(),
    ensures
        without(books.take(n), title) + skipped(books, title, n) == without(books, title),
    decreases books.len() - n,
{
    if n == books.len() {
        assert(books.take(n) == books);
        assert(without(books, title) + Seq::<Book>::empty() == without(books, title));
    } else {
        lemma_skipped(books, title, n + 1);
        let upto = books.take(n + 1);
        assert(upto.drop_last() == books.take(n));
        assert(upto.last() == books[n]);
        if books[n].title@ == title {
        } else {
            assert(without(books.take(n), title).push(books[n]) + skipped(books, title, n + 1)
                == without(books.take(n), title) + (seq![books[n]] + skipped(books, title, n + 1)));
        }
    }
}

/// What is left of the books from the first on is what is left of all
/// books.
proof fn lemma_skipped_all(books: Seq<Book>, title: Seq<char>)
    ensures
        skipped(books, title, 0) == without(books, title),
{
    lemma_skipped(books, title, 0);
    assert(books.take(0) == Seq::<Book>::empty());
    assert(Seq::<Book>::empty() + skipped(books, title, 0) == skipped(books, title, 0));
}

} // verus!
