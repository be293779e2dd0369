//! A book whose title and year can be changed after it has been made.

use vstd::prelude::*;

verus! {

/// A book: its title and the year in which it was published.
pub struct Book {
    title: String,
    year: u64,
}

/// What a book says: the characters of its title, and its year.
pub struct BookView {
    pub title: Seq<char>,
    pub year: u64,
}

impl View for Book {
    type V = BookView;

    closed spec fn view(&self) -> BookView {
        BookView { title: self.title@, year: self.year }
    }
}

impl Book {
    /// A book with the given title and year
    pub fn new(title: String, year: u64) -> (book: Book)
        ensures
            book@ == (BookView { title: title@, year }),
    {
        Book { title, year }
    }

    /// Returns the title
    pub fn title(&self) -> (title: &String)
        ensures
            title@ == self@.title,
    {
        &self.title
    }

    /// Returns the year
    pub fn year(&self) -> (year: u64)
        ensures
            year == self@.year,
    {
        self.year
    }

    /// Gives the book another title. The year stays.
    pub fn set_title(&mut self, title: String)
        ensures
            final(self)@ == (BookView { title: title@, year: old(self)@.year }),
    {
        self.title = title;
    }

    /// Gives the book another year. The title stays.
    pub fn set_year(&mut self, year: u64)
        ensures
            final(self)@ == (BookView { title: old(self)@.title, year }),
    {
        self.year = year;
    }
}

} // verus!
