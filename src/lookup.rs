//! Looking verses up by reference, such as `Genesis 1:1`.
use vstd::prelude::*;
use crate::corpus::{
    books_view, load_books, load_spec, Book, BookModel, Chapter, ChapterModel, LoadError,
};
use crate::number::{decimal, parse_i32, parse_i32_spec, push_decimal};
use crate::text::{
    ascii_upper, chars_of, join, join_chars, lower_of, lowercase, pieces_view, push_char,
    split_chars, split_on, split_tokens, string_of, tokens, upper_of,
};

verus! {

/// The whole corpus, books in the order the text gives them.
pub struct Bible {
    pub books: Vec<Book>,
}

impl View for Bible {
    type V = Seq<BookModel>;

    open spec fn view(&self) -> Seq<BookModel> {
        books_view(self.books@)
    }
}

/// The outcome of looking up a reference.
pub enum Resolution {
    /// The formatted verse: title, `chapter:verse`, then the text.
    Found(String),
    BookNotFound,
    ChapterNotFound,
    VerseNotFound,
    InvalidQuery,
}

/// What a lookup comes to, with the found verse as text.
pub ghost enum Outcome {
    Found(Seq<char>),
    BookNotFound,
    ChapterNotFound,
    VerseNotFound,
    InvalidQuery,
}

impl View for Resolution {
    type V = Outcome;

    open spec fn view(&self) -> Outcome {
        match self {
            Resolution::Found(s) => Outcome::Found(s@),
            Resolution::BookNotFound => Outcome::BookNotFound,
            Resolution::ChapterNotFound => Outcome::ChapterNotFound,
            Resolution::VerseNotFound => Outcome::VerseNotFound,
            Resolution::InvalidQuery => Outcome::InvalidQuery,
        }
    }
}

/// Whether a book answers to `key`, a lower-cased name: by its title or by
/// one of its abbreviations, both lower-cased.
pub open spec fn book_matches(b: BookModel, key: Seq<char>) -> bool {
    lower_of(b.title) == key || exists|k: int|
        0 <= k < b.abbreviations.len() && lower_of(#[trigger] b.abbreviations[k]) == key
}

/// `i` is the first book that answers to `key`.
pub open spec fn first_book_at(books: Seq<BookModel>, key: Seq<char>, i: int) -> bool {
    0 <= i < books.len() && book_matches(books[i], key) && forall|j: int|
        0 <= j < i ==> !book_matches(#[trigger] books[j], key)
}

/// The index of the first book that answers to `key`.
pub open spec fn find_book(books: Seq<BookModel>, key: Seq<char>) -> Option<int> {
    if exists|i: int| first_book_at(books, key, i) {
        Some(choose|i: int| first_book_at(books, key, i))
    } else {
        None
    }
}

/// `i` is the first chapter numbered `n`.
pub open spec fn first_chapter_at(chapters: Seq<ChapterModel>, n: int, i: int) -> bool {
    0 <= i < chapters.len() && chapters[i].number == n && forall|j: int|
        0 <= j < i ==> (#[trigger] chapters[j]).number != n
}

/// The index of the first chapter numbered `n`; none for `n` below 1.
pub open spec fn find_chapter(chapters: Seq<ChapterModel>, n: int) -> Option<int> {
    if n >= 1 && exists|i: int| first_chapter_at(chapters, n, i) {
        Some(choose|i: int| first_chapter_at(chapters, n, i))
    } else {
        None
    }
}

/// A word lower-cased, then with its first character in ASCII upper case.
pub open spec fn capitalized(w: Seq<char>) -> Seq<char> {
    let l = lower_of(w);
    if l.len() == 0 {
        l
    } else {
        l.update(0, upper_of(l[0]))
    }
}

/// A title for display: each space-separated word capitalized.
pub open spec fn format_title_spec(t: Seq<char>) -> Seq<char> {
    join(split_on(t, ' ').map_values(|w: Seq<char>| capitalized(w)), ' ')
}

/// `Title chapter:verse text`.
pub open spec fn rendered(title: Seq<char>, chapter: nat, verse: nat, text: Seq<char>) -> Seq<char> {
    format_title_spec(title) + seq![' '] + decimal(chapter) + seq![':'] + decimal(verse) + seq![' ']
        + text
}

/// Looking up book `title`, chapter `ch`, verse `v`.
pub open spec fn search_spec(books: Seq<BookModel>, title: Seq<char>, ch: int, v: int) -> Outcome {
    match find_book(books, lower_of(title)) {
        None => Outcome::BookNotFound,
        Some(bi) => match find_chapter(books[bi].chapters, ch) {
            None => Outcome::ChapterNotFound,
            Some(ci) => {
                let c = books[bi].chapters[ci];
                if 1 <= v <= c.verses.len() {
                    Outcome::Found(rendered(books[bi].title, c.number as nat, v as nat, c.verses[v - 1]))
                } else {
                    Outcome::VerseNotFound
                }
            },
        },
    }
}

/// The book part of a query: every token but the last, joined by spaces.
pub open spec fn query_title(q: Seq<char>) -> Seq<char> {
    join(tokens(q).drop_last(), ' ')
}

/// The pieces of a query's last token around `:`.
pub open spec fn query_numbers(q: Seq<char>) -> Seq<Seq<char>> {
    split_on(tokens(q).last(), ':')
}

/// Resolving query `q`: at least two white-space separated tokens, the last
/// one `chapter:verse` with two signed 32-bit numbers.
pub open spec fn resolve_spec(books: Seq<BookModel>, q: Seq<char>) -> Outcome {
    if tokens(q).len() < 2 {
        Outcome::InvalidQuery
    } else if query_numbers(q).len() != 2 {
        Outcome::InvalidQuery
    } else {
        match (parse_i32_spec(query_numbers(q)[0]), parse_i32_spec(query_numbers(q)[1])) {
            (Some(c), Some(v)) => search_spec(books, query_title(q), c as int, v as int),
            _ => Outcome::InvalidQuery,
        }
    }
}

/// The text shown for an outcome.
pub open spec fn message_spec(o: Outcome) -> Seq<char> {
    match o {
        Outcome::Found(s) => s,
        Outcome::BookNotFound => "Book not found"@,
        Outcome::ChapterNotFound => "Chapter not found"@,
        Outcome::VerseNotFound => "Verse not found"@,
        Outcome::InvalidQuery => "Invalid lookup"@,
    }
}

impl Resolution {
    /// The formatted verse, or a label naming what went wrong.
    pub fn message(&self) -> (r: String)
        ensures
            r@ == message_spec(self@),
    {
        match self {
            Resolution::Found(s) => s.clone(),
            Resolution::BookNotFound => String::from_str("Book not found"),
            Resolution::ChapterNotFound => String::from_str("Chapter not found"),
            Resolution::VerseNotFound => String::from_str("Verse not found"),
            Resolution::InvalidQuery => String::from_str("Invalid lookup"),
        }
    }
}

impl Chapter {
    /// Verse `verse_number`, counted from 1.
    pub fn verse_by_number(&self, verse_number: i32) -> (r: Option<String>)
        ensures
            r is Some <==> 1 <= verse_number <= self@.verses.len(),
            r is Some ==> r->0@ == self@.verses[verse_number - 1],
    {
        if verse_number < 1 {
            return None;
        }
        let n = verse_number as usize;
        if self.verses.len() < n {
            None
        } else {
            Some(self.verses[n - 1].clone())
        }
    }
}

impl Book {
    /// The first chapter numbered `number`; none for numbers below 1.
    pub fn chapter_by_number(&self, number: i32) -> (r: Option<&Chapter>)
        ensures
            r is Some <==> find_chapter(self@.chapters, number as int) is Some,
            r is Some ==> r->0@ == self@.chapters[find_chapter(self@.chapters, number as int)->0],
    {
        let ghost cv = self@.chapters;
        if number < 1 {
            return None;
        }
        let mut i: usize = 0;
        while i < self.chapters.len()
            invariant
                i <= self.chapters.len(),
                number >= 1,
                cv == self@.chapters,
                forall|j: int| 0 <= j < i ==> (#[trigger] cv[j]).number != number,
            decreases self.chapters.len() - i,
        {
            if self.chapters[i].number == number as u32 {
                assert(first_chapter_at(cv, number as int, i as int));
                proof {
                    let c = choose|k: int| first_chapter_at(cv, number as int, k);
                    assert(c == i) by {
                        if c < i {
                            assert(cv[c].number != number);
                        } else if c > i {
                            assert(cv[i as int].number != number);
                        }
                    }
                }
                return Some(&self.chapters[i]);
            }
            i += 1;
        }
        assert(!exists|k: int| first_chapter_at(cv, number as int, k));
        None
    }
}

/// Lower-cases a word, then puts its first character in ASCII upper case.
pub fn capitalize_first_letter(word: &str) -> (r: String)
    ensures
        r@ == capitalized(word@),
{
    let low = lowercase(word);
    let mut v = chars_of(low.as_str());
    if v.len() > 0 {
        let c = ascii_upper(v[0]);
        v.set(0, c);
    }
    string_of(&v)
}

/// Capitalizes each space-separated word of a title.
pub fn format_title(title: &str) -> (r: String)
    ensures
        r@ == format_title_spec(title@),
{
    let words = split_chars(&chars_of(title), ' ');
    let ghost caps = split_on(title@, ' ').map_values(|w: Seq<char>| capitalized(w));
    assert(caps.len() == words@.len());
    let mut r = String::new();
    let mut k: usize = 0;
    while k < words.len()
        invariant
            k <= words.len(),
            caps == pieces_view(words@).map_values(|w: Seq<char>| capitalized(w)),
            caps.len() == words@.len(),
            r@ == join(caps.take(k as int), ' '),
        decreases words.len() - k,
    {
        assert(caps.take(k + 1).drop_last() =~= caps.take(k as int));
        assert(caps.take(k + 1).last() == capitalized(words@[k as int]@));
        let ghost before = r@;
        if k > 0 {
            push_char(&mut r, ' ');
        }
        let w = capitalize_first_letter(string_of(&words[k]).as_str());
        r.append(w.as_str());
        if k == 0 {
            assert(r@ =~= join(caps.take(1), ' '));
        } else {
            assert(r@ =~= join(caps.take(k + 1), ' '));
        }
        k += 1;
    }
    assert(caps.take(words.len() as int) =~= caps);
    r
}

impl Bible {
    /// Reads the corpus from its text and its abbreviation table, both split
    /// into lines at `\n`.
    pub fn load_bible(text: &str, abbreviations: &str) -> (r: Result<Bible, LoadError>)
        ensures
            match r {
                Ok(b) => load_spec(split_on(text@, '\n'), split_on(abbreviations@, '\n'))
                    == Some(b@),
                Err(e) => e == LoadError::BadChapterNumber && load_spec(
                    split_on(text@, '\n'),
                    split_on(abbreviations@, '\n'),
                ) is None,
            },
    {
        let lines = split_chars(&chars_of(text), '\n');
        let rows = split_chars(&chars_of(abbreviations), '\n');
        match load_books(&lines, &rows) {
            Some(books) => Ok(Bible { books }),
            None => Err(LoadError::BadChapterNumber),
        }
    }

    /// The first book whose title or one of whose abbreviations equals
    /// `title`, compared in lower case.
    pub fn book_by_title(&self, title: &str) -> (r: Option<&Book>)
        ensures
            r is Some <==> find_book(self@, lower_of(title@)) is Some,
            r is Some ==> r->0@ == self@[find_book(self@, lower_of(title@))->0],
    {
        let ghost bv = self@;
        let key = lowercase(title);
        let mut i: usize = 0;
        while i < self.books.len()
            invariant
                i <= self.books.len(),
                bv == self@,
                key@ == lower_of(title@),
                forall|j: int| 0 <= j < i ==> !book_matches(#[trigger] bv[j], key@),
            decreases self.books.len() - i,
        {
            let book = &self.books[i];
            let mut found = lowercase(book.title.as_str()) == key;
            let mut k: usize = 0;
            while k < book.abbreviations.len() && !found
                invariant
                    k <= book.abbreviations.len(),
                    i < self.books.len(),
                    bv == self@,
                    book == &self.books@[i as int],
                    book@ == bv[i as int],
                    found ==> book_matches(bv[i as int], key@),
                    !found ==> lower_of(bv[i as int].title) != key@,
                    !found ==> forall|m: int|
                        0 <= m < k ==> lower_of(#[trigger] bv[i as int].abbreviations[m]) != key@,
                decreases book.abbreviations.len() - k,
            {
                if lowercase(book.abbreviations[k].as_str()) == key {
                    assert(bv[i as int].abbreviations[k as int] == book.abbreviations@[k as int]@);
                    found = true;
                }
                k += 1;
            }
            if found {
                assert(first_book_at(bv, key@, i as int));
                proof {
                    let c = choose|m: int| first_book_at(bv, key@, m);
                    assert(c == i) by {
                        if c < i {
                            assert(!book_matches(bv[c], key@));
                        } else if c > i {
                            assert(!book_matches(bv[i as int], key@));
                        }
                    }
                }
                return Some(book);
            }
            assert(!book_matches(bv[i as int], key@));
            i += 1;
        }
        assert(!exists|m: int| first_book_at(bv, key@, m));
        None
    }

    /// Looks up verse `verse_number` of chapter `chapter_number` of the book
    /// called `book_title`.
    pub fn lookup(&self, book_title: &str, chapter_number: i32, verse_number: i32) -> (r:
        Resolution)
        ensures
            r@ == search_spec(self@, book_title@, chapter_number as int, verse_number as int),
    {
        let book = match self.book_by_title(book_title) {
            Some(b) => b,
            None => return Resolution::BookNotFound,
        };
        let chapter = match book.chapter_by_number(chapter_number) {
            Some(c) => c,
            None => return Resolution::ChapterNotFound,
        };
        let verse = match chapter.verse_by_number(verse_number) {
            Some(v) => v,
            None => return Resolution::VerseNotFound,
        };
        let mut out = format_title(book.title.as_str());
        push_char(&mut out, ' ');
        push_decimal(&mut out, chapter.number);
        push_char(&mut out, ':');
        push_decimal(&mut out, verse_number as u32);
        push_char(&mut out, ' ');
        out.append(verse.as_str());
        let ghost bi = find_book(self@, lower_of(book_title@))->0;
        let ghost ci = find_chapter(self@[bi].chapters, chapter_number as int)->0;
        assert(out@ =~= rendered(
            self@[bi].title,
            self@[bi].chapters[ci].number as nat,
            verse_number as nat,
            self@[bi].chapters[ci].verses[verse_number - 1],
        ));
        Resolution::Found(out)
    }

    /// Resolves a reference such as `Genesis 1:1` or `1 john 3:16`.
    pub fn resolve(&self, query: &str) -> (r: Resolution)
        ensures
            r@ == resolve_spec(self@, query@),
    {
        let toks = split_tokens(&chars_of(query));
        let ghost tv = tokens(query@);
        assert(pieces_view(toks@).len() == toks@.len());
        if toks.len() < 2 {
            return Resolution::InvalidQuery;
        }
        let last = toks.len() - 1;
        assert(tv.last() == toks@[last as int]@);
        let numbers = split_chars(&toks[last], ':');
        assert(pieces_view(numbers@).len() == numbers@.len());
        if numbers.len() != 2 {
            return Resolution::InvalidQuery;
        }
        assert(pieces_view(numbers@)[0] == numbers@[0]@);
        assert(pieces_view(numbers@)[1] == numbers@[1]@);
        let chapter = match parse_i32(&numbers[0]) {
            Some(c) => c,
            None => return Resolution::InvalidQuery,
        };
        let verse = match parse_i32(&numbers[1]) {
            Some(v) => v,
            None => return Resolution::InvalidQuery,
        };
        let title = string_of(&join_chars(&toks, last, ' '));
        assert(pieces_view(toks@).take(last as int) =~= tv.drop_last());
        self.lookup(title.as_str(), chapter, verse)
    }

    /// Resolves a reference and gives the text to show: the formatted verse,
    /// or a label naming what went wrong.
    pub fn search(&self, query: &str) -> (r: String)
        ensures
            r@ == message_spec(resolve_spec(self@, query@)),
    {
        self.resolve(query).message()
    }
}

} // verus!
