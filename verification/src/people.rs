//! A list of people that is kept by commands.

use crate::text::{number_of, same, split_whitespace, to_number, views, words_of};
use vstd::prelude::*;

verus! {

/// A person: the name, and the age, if that is known.
pub struct Person {
    pub name: String,
    pub age: Option<i32>,
}

impl Person {
    /// A person with the given name whose age is not known
    pub fn new(name: String) -> (person: Person)
        ensures
            person.name == name,
            person.age.is_none(),
    {
        Person { name, age: None }
    }
}

/// What can be asked for.
pub enum Command {
    Add(String),
    Age(String, String),
    Remove(String),
    Show,
    Help,
    Quit,
}

/// Why a command was not carried out.
#[derive(Clone, Copy, Debug, PartialEq, Eq, Structural)]
pub enum Error {
    MissingArg,
    UnknownCmd,
    ReadFailed,
    ParseFailed,
    NotFound,
    Exists,
}

/// Whether `r` is what the command means whose words are `words`.
///
/// The first word names the command. `add` and `rem` take one more word,
/// `age` takes two, and `show`, `help` and `quit` take what they get. A
/// command without a word, or with another number of words than it takes,
/// misses an argument.
pub open spec fn parsed(words: Seq<Seq<char>>, r: Result<Command, Error>) -> bool {
    if words.len() == 0 {
        r == Err::<Command, Error>(Error::MissingArg)
    } else if words[0] == "add"@ {
        if words.len() != 2 {
            r == Err::<Command, Error>(Error::MissingArg)
        } else {
            r matches Ok(Command::Add(name)) && name@ == words[1]
        }
    } else if words[0] == "age"@ {
        if words.len() != 3 {
            r == Err::<Command, Error>(Error::MissingArg)
        } else {
            r matches Ok(Command::Age(name, age)) && name@ == words[1] && age@ == words[2]
        }
    } else if words[0] == "rem"@ {
        if words.len() != 2 {
            r == Err::<Command, Error>(Error::MissingArg)
        } else {
            r matches Ok(Command::Remove(name)) && name@ == words[1]
        }
    } else if words[0] == "show"@ {
        r matches Ok(Command::Show)
    } else if words[0] == "help"@ {
        r matches Ok(Command::Help)
    } else if words[0] == "quit"@ {
        r matches Ok(Command::Quit)
    } else {
        r == Err::<Command, Error>(Error::UnknownCmd)
    }
}

/// Returns the command whose words are `parts`
pub fn parse_words(parts: &Vec<&str>) -> (r: Result<Command, Error>)
    ensures
        parsed(views(parts@), r),
{
    if parts.len() == 0 {
        return Err(Error::MissingArg);
    }
    assert(views(parts@)[0] == parts@[0]@);
    if same(parts[0], "add") {
        if parts.len() != 2 {
            return Err(Error::MissingArg);
        }
        assert(views(parts@)[1] == parts@[1]@);
        Ok(Command::Add(parts[1].to_owned()))
    } else if same(parts[0], "age") {
        if parts.len() != 3 {
            return Err(Error::MissingArg);
        }
        assert(views(parts@)[1] == parts@[1]@);
        assert(views(parts@)[2] == parts@[2]@);
        Ok(Command::Age(parts[1].to_owned(), parts[2].to_owned()))
    } else if same(parts[0], "rem") {
        if parts.len() != 2 {
            return Err(Error::MissingArg);
        }
        assert(views(parts@)[1] == parts@[1]@);
        Ok(Command::Remove(parts[1].to_owned()))
    } else if same(parts[0], "show") {
        Ok(Command::Show)
    } else if same(parts[0], "help") {
        Ok(Command::Help)
    } else if same(parts[0], "quit") {
        Ok(Command::Quit)
    } else {
        Err(Error::UnknownCmd)
    }
}

/// Returns the command that the line `cmd` stands for
pub fn parse(cmd: String) -> (r: Result<Command, Error>)
    ensures
        parsed(words_of(cmd@), r),
{
    let parts = split_whitespace(cmd.as_str());
    parse_words(&parts)
}

/// Index of the first of `people` with the name `name`, or the number of
/// people if there is none.
pub open spec fn position(people: Seq<Person>, name: Seq<char>) -> int
    decreases people.len(),
{
    if people.len() == 0 {
        0
    } else if people[0].name@ == name {
        0
    } else {
        1 + position(people.drop_first(), name)
    }
}

/// Whether one of `people` has the name `name`.
pub open spec fn has_name(people: Seq<Person>, name: Seq<char>) -> bool {
    exists|i: int| 0 <= i < people.len() && (#[trigger] people[i]).name@ == name
}

/// Those of `people` that do not have the name `name`, in their order.
pub open spec fn without(people: Seq<Person>, name: Seq<char>) -> Seq<Person>
    decreases people.len(),
{
    if people.len() == 0 {
        people
    } else if people.last().name@ == name {
        without(people.drop_last(), name)
    } else {
        without(people.drop_last(), name).push(people.last())
    }
}

/// The first person with a given name is a person with that name, and no person
/// before it has the name; there is none only if no person has the name.
pub proof fn lemma_position(people: Seq<Person>, name: Seq<char>)
    ensures
        0 <= position(people, name) <= people.len(),
        position(people, name) < people.len() <==> has_name(people, name),
        position(people, name) < people.len() ==> people[position(people, name)].name@ == name,
        forall|i: int| 0 <= i < position(people, name) ==> (#[trigger] people[i]).name@ != name,
    decreases people.len(),
{
    if people.len() > 0 && people[0].name@ != name {
        let rest = people.drop_first();
        lemma_position(rest, name);
        let p = position(rest, name);
        assert forall|i: int| 0 <= i < 1 + p implies (#[trigger] people[i]).name@ != name by {
            if i > 0 {
                assert(rest[i - 1].name@ != name);
            }
        }
        if p < rest.len() {
            assert(people[1 + p] == rest[p]);
        } else {
            if has_name(people, name) {
                let i = choose|i: int| 0 <= i < people.len() && (#[trigger] people[i]).name@ == name;
                assert(rest[i - 1].name@ == name);
            }
        }
    } else if people.len() > 0 {
        assert(people[0].name@ == name);
    }
}

/// Returns the index of the first of `people` with the name `name`
fn find(people: &Vec<Person>, name: &String) -> (r: Option<usize>)
    ensures
        r matches Some(i) ==> i == position(people@, name@) && i < people.len(),
        r.is_none() ==> position(people@, name@) == people.len(),
{
    let mut i: usize = 0;
    while i < people.len()
        invariant
            i <= people.len(),
            forall|j: int| 0 <= j < i ==> (#[trigger] people@[j]).name@ != name@,
        decreases people.len() - i,
    {
        if people[i].name == *name {
            proof {
                lemma_position(people@, name@);
                let p = position(people@, name@);
                if p < i {
                    assert(people@[p].name@ == name@);
                }
            }
            return Some(i);
        }
        i = i + 1;
    }
    proof {
        lemma_position(people@, name@);
        let p = position(people@, name@);
        if p < people.len() {
            assert(people@[p].name@ == name@);
        }
    }
    None
}

/// Adds a person with the name `name`, unless there is one already
pub fn cmd_add(people: &mut Vec<Person>, name: String) -> (r: Result<(), Error>)
    ensures
        has_name(old(people)@, name@) ==> r == Err::<(), Error>(Error::Exists) && final(people)@
            == old(people)@,
        !has_name(old(people)@, name@) ==> r.is_ok() && final(people)@ == old(people)@.push(
            Person { name, age: None },
        ),
{
    proof {
        lemma_position(people@, name@);
    }
    if find(people, &name).is_some() {
        return Err(Error::Exists);
    }
    people.push(Person::new(name));
    Ok(())
}

/// Sets the age of the first person with the name `name` to the number
/// that `age` stands for
pub fn cmd_age(people: &mut Vec<Person>, name: String, age: String) -> (r: Result<(), Error>)
    ensures
        !has_name(old(people)@, name@) ==> r == Err::<(), Error>(Error::NotFound) && final(people)@
            == old(people)@,
        has_name(old(people)@, name@) ==> match number_of(age@) {
            None => r == Err::<(), Error>(Error::ParseFailed) && final(people)@ == old(people)@,
            Some(n) => r.is_ok() && final(people)@ == old(people)@.update(
                position(old(people)@, name@),
                Person {
                    name: old(people)@[position(old(people)@, name@)].name,
                    age: Some(n),
                },
            ),
        },
{
    proof {
        lemma_position(people@, name@);
    }
    let i = match find(people, &name) {
        Some(i) => i,
        None => {
            return Err(Error::NotFound);
        },
    };
    set_age(people, i, to_number(age.as_str()))
}

/// Sets the age of person `i` to `age`, if that is a number
pub fn set_age(people: &mut Vec<Person>, i: usize, age: Option<i32>) -> (r: Result<(), Error>)
    requires
        i < old(people).len(),
    ensures
        match age {
            None => r == Err::<(), Error>(Error::ParseFailed) && final(people)@ == old(people)@,
            Some(n) => r.is_ok() && final(people)@ == old(people)@.update(
                i as int,
                Person { name: old(people)@[i as int].name, age: Some(n) },
            ),
        },
{
    match age {
        Some(n) => {
            people[i].age = Some(n);
            Ok(())
        },
        None => Err(Error::ParseFailed),
    }
}

/// Removes the people with the name `name`
pub fn cmd_remove(people: &mut Vec<Person>, name: String) -> (r: Result<(), Error>)
    ensures
        !has_name(old(people)@, name@) ==> r == Err::<(), Error>(Error::NotFound) && final(people)@
            == old(people)@,
        has_name(old(people)@, name@) ==> r.is_ok() && final(people)@ == without(
            old(people)@,
            name@,
        ),
{
    proof {
        lemma_position(people@, name@);
    }
    if find(people, &name).is_none() {
        return Err(Error::NotFound);
    }
    let mut i: usize = people.len();
    assert(people@.take(i as int) =~= old(people)@.take(i as int));
    assert(people@.skip(i as int) =~= skipped(old(people)@, name@, i as int));
    while i > 0
        invariant
            i <= people.len(),
            i <= old(people).len(),
            people@.take(i as int) == old(people)@.take(i as int),
            people@.skip(i as int) == skipped(old(people)@, name@, i as int),
        decreases i,
    {
        i = i - 1;
        let ghost before = people@;
        assert(before[i as int] == old(people)@[i as int]) by {
            assert(before.take(i + 1)[i as int] == old(people)@.take(i + 1)[i as int]);
        }
        assert(before.take(i as int) =~= old(people)@.take(i as int)) by {
            assert(before.take(i + 1).take(i as int) =~= before.take(i as int));
            assert(old(people)@.take(i + 1).take(i as int) =~= old(people)@.take(i as int));
        }
        if people[i].name == name {
            people.remove(i);
            assert(people@.skip(i as int) =~= before.skip(i + 1));
            assert(people@.take(i as int) =~= before.take(i as int));
        } else {
            assert(people@.skip(i as int) =~= seq![before[i as int]] + before.skip(i + 1));
        }
    }
    proof {
        lemma_skipped_all(old(people)@, name@);
        assert(people@.skip(0) == people@);
    }
    Ok(())
}

/// Those of `people` from index `from` on that do not have the name
/// `name`, in their order.
pub open spec fn skipped(people: Seq<Person>, name: Seq<char>, from: int) -> Seq<Person>
    decreases people.len() - from,
{
    if from >= people.len() {
        Seq::<Person>::empty()
    } else if people[from].name@ == name {
        skipped(people, name, from + 1)
    } else {
        seq![people[from]] + skipped(people, name, from + 1)
    }
}

/// What is left of the first `n` people and what is left of the people from
/// `n` on make up what is left of all people.
proof fn lemma_skipped(people: Seq<Person>, name: Seq<char>, n: int)
    requires
        0 <= n <= people.len(),
    ensures
        without(people.take(n), name) + skipped(people, name, n) == without(people, name),
    decreases people.len() - n,
{
    if n == people.len() {
        assert(people.take(n) == people);
        assert(without(people, name) + Seq::<Person>::empty() == without(people, name));
    } else {
        lemma_skipped(people, name, n + 1);
        let upto = people.take(n + 1);
        assert(upto.drop_last() == people.take(n));
        assert(upto.last() == people[n]);
        if people[n].name@ == name {
        } else {
            assert(without(people.take(n), name).push(people[n]) + skipped(people, name, n + 1)
                == without(people.take(n), name) + (seq![people[n]] + skipped(people, name, n + 1)));
        }
    }
}

/// What is left of the people from the first on is what is left of all
/// people.
proof fn lemma_skipped_all(people: Seq<Person>, name: Seq<char>)
    ensures
        skipped(people, name, 0) == without(people, name),
{
    lemma_skipped(people, name, 0);
    assert(people.take(0) == Seq::<Person>::empty());
    assert(Seq::<Person>::empty() + skipped(people, name, 0) == skipped(people, name, 0));
}

} // verus!
