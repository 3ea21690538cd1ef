//! What holds of every lookup, stated over the models.
use vstd::prelude::*;
use crate::corpus::{load_spec, BookModel};
use crate::lookup::{
    book_matches, find_book, find_chapter, first_book_at, first_chapter_at, query_numbers,
    query_title, rendered, resolve_spec, search_spec, Outcome,
};
use crate::number::parse_i32_spec;
use crate::text::{lemma_split_without_sep, lower_of, tokens};

verus! {

/// The first book that answers to a key is the one that lookup finds.
pub proof fn lemma_first_book_found(books: Seq<BookModel>, key: Seq<char>, i: int)
    requires
        first_book_at(books, key, i),
    ensures
        find_book(books, key) == Some(i),
{
    let c = choose|m: int| first_book_at(books, key, m);
    assert(c == i) by {
        if c < i {
            assert(!book_matches(books[c], key));
        } else if c > i {
            assert(!book_matches(books[i], key));
        }
    }
}

/// The first chapter with a number of at least 1 is the one that lookup finds.
pub proof fn lemma_first_chapter_found(books: Seq<BookModel>, bi: int, n: int, ci: int)
    requires
        0 <= bi < books.len(),
        n >= 1,
        first_chapter_at(books[bi].chapters, n, ci),
    ensures
        find_chapter(books[bi].chapters, n) == Some(ci),
{
    let cs = books[bi].chapters;
    let c = choose|m: int| first_chapter_at(cs, n, m);
    assert(c == ci) by {
        if c < ci {
            assert(cs[c].number != n);
        } else if c > ci {
            assert(cs[ci].number != n);
        }
    }
}

/// A well-formed query that names a book, a chapter of it and a verse in
/// range gives the capitalized title, `chapter:verse` and the verse text.
pub proof fn lemma_resolve_found(
    books: Seq<BookModel>,
    q: Seq<char>,
    bi: int,
    ci: int,
    c: i32,
    v: i32,
)
    requires
        tokens(q).len() >= 2,
        query_numbers(q).len() == 2,
        parse_i32_spec(query_numbers(q)[0]) == Some(c),
        parse_i32_spec(query_numbers(q)[1]) == Some(v),
        find_book(books, lower_of(query_title(q))) == Some(bi),
        find_chapter(books[bi].chapters, c as int) == Some(ci),
        1 <= v <= books[bi].chapters[ci].verses.len(),
    ensures
        resolve_spec(books, q) == Outcome::Found(
            rendered(books[bi].title, c as nat, v as nat, books[bi].chapters[ci].verses[v - 1]),
        ),
{
    assert(first_chapter_at(books[bi].chapters, c as int, ci));
}

/// A query with fewer than two tokens, the empty query among them, is invalid.
pub proof fn lemma_short_query_invalid(books: Seq<BookModel>, q: Seq<char>)
    requires
        tokens(q).len() < 2,
    ensures
        resolve_spec(books, q) == Outcome::InvalidQuery,
{
}

/// The empty query is invalid.
pub proof fn lemma_empty_query_invalid(books: Seq<BookModel>)
    ensures
        resolve_spec(books, seq![]) == Outcome::InvalidQuery,
{
    assert(tokens(seq![]).len() == 0);
}

/// A query whose last token holds no `:` is invalid.
pub proof fn lemma_no_colon_invalid(books: Seq<BookModel>, q: Seq<char>)
    requires
        tokens(q).len() >= 2,
        !tokens(q).last().contains(':'),
    ensures
        resolve_spec(books, q) == Outcome::InvalidQuery,
{
    lemma_split_without_sep(tokens(q).last(), ':');
}

/// Book names are matched without regard to case: two queries whose book
/// parts agree in lower case and whose last tokens are equal resolve alike.
pub proof fn lemma_case_insensitive(books: Seq<BookModel>, q1: Seq<char>, q2: Seq<char>)
    requires
        tokens(q1).len() >= 2,
        tokens(q2).len() >= 2,
        tokens(q1).last() == tokens(q2).last(),
        lower_of(query_title(q1)) == lower_of(query_title(q2)),
    ensures
        resolve_spec(books, q1) == resolve_spec(books, q2),
{
}

/// A registered abbreviation finds the same verse as the book's title, where
/// no earlier book answers to either.
pub proof fn lemma_abbreviation_as_title(
    books: Seq<BookModel>,
    bi: int,
    k: int,
    ch: int,
    v: int,
)
    requires
        0 <= bi < books.len(),
        0 <= k < books[bi].abbreviations.len(),
        forall|j: int|
            0 <= j < bi ==> !book_matches(#[trigger] books[j], lower_of(books[bi].title)),
        forall|j: int|
            0 <= j < bi ==> !book_matches(
                #[trigger] books[j],
                lower_of(books[bi].abbreviations[k]),
            ),
    ensures
        search_spec(books, books[bi].abbreviations[k], ch, v) == search_spec(
            books,
            books[bi].title,
            ch,
            v,
        ),
{
    let a = books[bi].abbreviations[k];
    assert(book_matches(books[bi], lower_of(a)));
    lemma_first_book_found(books, lower_of(a), bi);
    lemma_first_book_found(books, lower_of(books[bi].title), bi);
}

/// A chapter number below 1 gives `ChapterNotFound` once the book is found,
/// whatever the verse.
pub proof fn lemma_chapter_below_one(books: Seq<BookModel>, title: Seq<char>, ch: int, v: int)
    requires
        find_book(books, lower_of(title)) is Some,
        ch < 1,
    ensures
        search_spec(books, title, ch, v) == Outcome::ChapterNotFound,
{
}

/// A verse number below 1 or past the chapter's end gives `VerseNotFound`.
pub proof fn lemma_verse_out_of_range(
    books: Seq<BookModel>,
    title: Seq<char>,
    ch: int,
    v: int,
    bi: int,
    ci: int,
)
    requires
        find_book(books, lower_of(title)) == Some(bi),
        find_chapter(books[bi].chapters, ch) == Some(ci),
        v < 1 || v > books[bi].chapters[ci].verses.len(),
    ensures
        search_spec(books, title, ch, v) == Outcome::VerseNotFound,
{
}

/// A name that no book answers to gives `BookNotFound`.
pub proof fn lemma_unknown_book(books: Seq<BookModel>, title: Seq<char>, ch: int, v: int)
    requires
        forall|j: int| 0 <= j < books.len() ==> !book_matches(#[trigger] books[j], lower_of(title)),
    ensures
        search_spec(books, title, ch, v) == Outcome::BookNotFound,
{
}

/// After reading a corpus, the first verse of its first book is found, where
/// that book's first chapter is numbered and holds a verse.
pub proof fn lemma_first_verse_of_corpus(
    lines: Seq<Seq<char>>,
    rows: Seq<Seq<char>>,
    books: Seq<BookModel>,
)
    requires
        load_spec(lines, rows) == Some(books),
        books[0].chapters.len() > 0,
        books[0].chapters[0].number >= 1,
        books[0].chapters[0].verses.len() > 0,
    ensures
        search_spec(books, books[0].title, books[0].chapters[0].number as int, 1) == Outcome::Found(
            rendered(
                books[0].title,
                books[0].chapters[0].number as nat,
                1,
                books[0].chapters[0].verses[0],
            ),
        ),
{
    assert(books.len() > 0);
    lemma_first_book_found(books, lower_of(books[0].title), 0);
    lemma_first_chapter_found(books, 0, books[0].chapters[0].number as int, 0);
}

/// After reading a corpus, the last verse of its last book is found, where
/// that book's last chapter is numbered and holds a verse, no earlier book
/// answers to its title and no earlier chapter of it has that number.
pub proof fn lemma_last_verse_of_corpus(
    lines: Seq<Seq<char>>,
    rows: Seq<Seq<char>>,
    books: Seq<BookModel>,
)
    requires
        load_spec(lines, rows) == Some(books),
        books.last().chapters.last().number >= 1,
        books.last().chapters.last().verses.len() > 0,
        forall|j: int|
            0 <= j < books.len() - 1 ==> !book_matches(
                #[trigger] books[j],
                lower_of(books.last().title),
            ),
        forall|j: int|
            0 <= j < books.last().chapters.len() - 1 ==> (#[trigger] books.last().chapters[j]).number
                != books.last().chapters.last().number,
    ensures
        ({
            let b = books.last();
            let c = b.chapters.last();
            search_spec(books, b.title, c.number as int, c.verses.len() as int) == Outcome::Found(
                rendered(b.title, c.number as nat, c.verses.len(), c.verses.last()),
            )
        }),
{
    let bi = books.len() - 1;
    let b = books[bi];
    let ci = b.chapters.len() - 1;
    lemma_first_book_found(books, lower_of(b.title), bi);
    lemma_first_chapter_found(books, bi, b.chapters[ci].number as int, ci);
}

} // verus!
