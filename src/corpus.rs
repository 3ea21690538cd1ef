//! The corpus: books of numbered chapters of verses, and how it is read from
//! line-oriented text and an abbreviation table.
use vstd::prelude::*;
use crate::number::{is_digit, parse_u32, parse_u32_spec};
use crate::text::{
    lower_of, lowercase, pieces_view, slice_chars, split_chars, split_on, starts,
    starts_with, string_of, trim, trim_chars,
};

verus! {

/// A chapter: its number and its verses, verse `k` at index `k - 1`.
pub struct Chapter {
    pub number: u32,
    pub verses: Vec<String>,
}

/// A book: its title as found in the text, its chapters in order of
/// appearance, and the short names that also select it.
pub struct Book {
    pub title: String,
    pub chapters: Vec<Chapter>,
    pub abbreviations: Vec<String>,
}

/// Why a corpus could not be read.
#[derive(Debug, PartialEq, Eq, Structural)]
pub enum LoadError {
    /// A chapter header whose number does not read as an unsigned number.
    BadChapterNumber,
}

/// What a chapter holds: its number and the text of each verse.
pub ghost struct ChapterModel {
    pub number: u32,
    pub verses: Seq<Seq<char>>,
}

/// What a book holds: title, chapters and abbreviations as text.
pub ghost struct BookModel {
    pub title: Seq<char>,
    pub chapters: Seq<ChapterModel>,
    pub abbreviations: Seq<Seq<char>>,
}

pub open spec fn strings_view(v: Seq<String>) -> Seq<Seq<char>> {
    v.map_values(|s: String| s@)
}

pub open spec fn chapters_view(v: Seq<Chapter>) -> Seq<ChapterModel> {
    v.map_values(|c: Chapter| c@)
}

pub open spec fn books_view(v: Seq<Book>) -> Seq<BookModel> {
    v.map_values(|b: Book| b@)
}

impl View for Chapter {
    type V = ChapterModel;

    open spec fn view(&self) -> ChapterModel {
        ChapterModel { number: self.number, verses: strings_view(self.verses@) }
    }
}

impl View for Book {
    type V = BookModel;

    open spec fn view(&self) -> BookModel {
        BookModel {
            title: self.title@,
            chapters: chapters_view(self.chapters@),
            abbreviations: strings_view(self.abbreviations@),
        }
    }
}

pub open spec fn empty_chapter_model() -> ChapterModel {
    ChapterModel { number: 0, verses: seq![] }
}

pub open spec fn empty_book_model() -> BookModel {
    BookModel { title: seq![], chapters: seq![], abbreviations: seq![] }
}

impl Chapter {
    /// The chapter accumulator before any chapter header: number 0.
    pub fn empty_chapter() -> (r: Chapter)
        ensures
            r@ == empty_chapter_model(),
    {
        let r = Chapter { number: 0, verses: Vec::new() };
        assert(r@.verses =~= seq![]);
        r
    }
}

impl Book {
    /// A book with no title, chapters or abbreviations.
    pub fn empty_book() -> (r: Book)
        ensures
            r@ == empty_book_model(),
    {
        let r = Book { title: String::new(), chapters: Vec::new(), abbreviations: Vec::new() };
        assert(r@.chapters =~= seq![]);
        assert(r@.abbreviations =~= seq![]);
        r
    }
}

/// Whether a row `abbreviation,title,...` of the table names `title`,
/// compared without case and surrounding white space.
pub open spec fn row_names(row: Seq<char>, title: Seq<char>) -> bool {
    row.len() > 0 && split_on(row, ',').len() >= 2
        && lower_of(trim(split_on(row, ',')[1])) == lower_of(trim(title))
}

/// The abbreviations that the rows of the table give for `title`, in row order.
pub open spec fn abbreviations_for(title: Seq<char>, rows: Seq<Seq<char>>) -> Seq<Seq<char>>
    decreases rows.len(),
{
    if rows.len() == 0 {
        seq![]
    } else {
        let prev = abbreviations_for(title, rows.drop_last());
        if row_names(rows.last(), title) {
            prev.push(trim(split_on(rows.last(), ',')[0]))
        } else {
            prev
        }
    }
}

/// Collects the abbreviations that `rows` give for `title`.
pub fn load_abbreviations(title: &[char], rows: &Vec<Vec<char>>) -> (r: Vec<String>)
    ensures
        strings_view(r@) == abbreviations_for(title@, pieces_view(rows@)),
{
    let wanted = lowercase(string_of(&trim_chars(title)).as_str());
    let ghost rv = pieces_view(rows@);
    let mut r: Vec<String> = Vec::new();
    let mut i: usize = 0;
    while i < rows.len()
        invariant
            i <= rows.len(),
            rv == pieces_view(rows@),
            wanted@ == lower_of(trim(title@)),
            strings_view(r@) == abbreviations_for(title@, rv.take(i as int)),
        decreases rows.len() - i,
    {
        assert(rv.take(i + 1).drop_last() =~= rv.take(i as int));
        assert(rv.take(i + 1).last() == rows@[i as int]@);
        let row = &rows[i];
        if row.len() > 0 {
            let cols = split_chars(row, ',');
            if cols.len() >= 2 {
                let name = lowercase(string_of(&trim_chars(&cols[1])).as_str());
                if name == wanted {
                    let short = string_of(&trim_chars(&cols[0]));
                    r.push(short);
                    assert(strings_view(r@) =~= abbreviations_for(title@, rv.take(i + 1)));
                }
            }
        }
        i += 1;
    }
    assert(rv.take(rows.len() as int) =~= rv);
    r
}

/// The line that opens a book; the rest of the line is its title.
pub open spec fn book_marker() -> Seq<char> {
    "THE BOOK OF "@
}

pub open spec fn chapter_marker() -> Seq<char> {
    "CHAPTER "@
}

pub open spec fn psalm_marker() -> Seq<char> {
    "PSALM "@
}

/// `s` without its leading ASCII digits.
pub open spec fn strip_digits(s: Seq<char>) -> Seq<char>
    decreases s.len(),
{
    if s.len() > 0 && is_digit(s[0]) {
        strip_digits(s.skip(1))
    } else {
        s
    }
}

/// A trimmed line that starts with a digit from 1 to 9 holds a verse.
pub open spec fn is_verse_line(l: Seq<char>) -> bool {
    l.len() > 0 && '1' <= l[0] && l[0] <= '9'
}

/// The text of a verse line: leading digits dropped, then trimmed.
pub open spec fn verse_text(l: Seq<char>) -> Seq<char> {
    trim(strip_digits(l))
}

/// The token after a chapter header's marker.
pub open spec fn chapter_token(l: Seq<char>) -> Seq<char> {
    let n = if starts(l, chapter_marker()) { chapter_marker().len() } else { psalm_marker().len() };
    split_on(l.skip(n as int), ' ')[0]
}

/// What the reader holds between lines: the finished books, the book being
/// read, and the chapter being read (number 0 while none is open).
pub ghost struct LoadState {
    pub books: Seq<BookModel>,
    pub book: BookModel,
    pub chapter: ChapterModel,
}

/// Puts the open chapter into the book if one is open.
pub open spec fn flush_chapter(book: BookModel, ch: ChapterModel) -> BookModel {
    if ch.number > 0 {
        BookModel { chapters: book.chapters.push(ch), ..book }
    } else {
        book
    }
}

/// The reader's state after one more line; `None` on a chapter header whose
/// number does not read.
pub open spec fn step(st: LoadState, line: Seq<char>, rows: Seq<Seq<char>>) -> Option<LoadState> {
    let l = trim(line);
    if starts(l, book_marker()) {
        let done = flush_chapter(st.book, st.chapter);
        let title = l.skip(book_marker().len() as int);
        Some(LoadState {
            books: if done.chapters.len() > 0 { st.books.push(done) } else { st.books },
            book: BookModel { title, chapters: seq![], abbreviations: abbreviations_for(title, rows) },
            chapter: empty_chapter_model(),
        })
    } else if starts(l, chapter_marker()) || starts(l, psalm_marker()) {
        match parse_u32_spec(chapter_token(l)) {
            Some(n) => Some(LoadState {
                books: st.books,
                book: flush_chapter(st.book, st.chapter),
                chapter: ChapterModel { number: n, verses: seq![] },
            }),
            None => None,
        }
    } else if is_verse_line(l) {
        Some(LoadState {
            chapter: ChapterModel {
                number: st.chapter.number,
                verses: st.chapter.verses.push(verse_text(l)),
            },
            ..st
        })
    } else {
        Some(st)
    }
}

pub open spec fn initial_state() -> LoadState {
    LoadState { books: seq![], book: empty_book_model(), chapter: empty_chapter_model() }
}

/// The reader's state after all of `lines`.
pub open spec fn run(lines: Seq<Seq<char>>, rows: Seq<Seq<char>>) -> Option<LoadState>
    decreases lines.len(),
{
    if lines.len() == 0 {
        Some(initial_state())
    } else {
        match run(lines.drop_last(), rows) {
            Some(st) => step(st, lines.last(), rows),
            None => None,
        }
    }
}

/// At the end of the text the open chapter goes into the open book, and that
/// book into the list, whatever they hold.
pub open spec fn finish(st: LoadState) -> Seq<BookModel> {
    st.books.push(BookModel { chapters: st.book.chapters.push(st.chapter), ..st.book })
}

/// The books that `lines` describe, with abbreviations from `rows`.
pub open spec fn load_spec(lines: Seq<Seq<char>>, rows: Seq<Seq<char>>) -> Option<Seq<BookModel>> {
    match run(lines, rows) {
        Some(st) => Some(finish(st)),
        None => None,
    }
}

proof fn lemma_run_failed_stays(lines: Seq<Seq<char>>, rows: Seq<Seq<char>>, i: int, j: int)
    requires
        0 <= i <= j <= lines.len(),
        run(lines.take(i), rows) is None,
    ensures
        run(lines.take(j), rows) is None,
    decreases j - i,
{
    if i < j {
        lemma_run_failed_stays(lines, rows, i, j - 1);
        assert(lines.take(j).drop_last() =~= lines.take(j - 1));
    }
}

proof fn lemma_strip_step(s: Seq<char>, j: int)
    requires
        0 <= j < s.len(),
        is_digit(s[j]),
    ensures
        strip_digits(s.skip(j)) == strip_digits(s.skip(j + 1)),
{
    assert(s.skip(j).skip(1) =~= s.skip(j + 1));
}

/// Moves the open chapter into the book if it is numbered, leaving an empty
/// accumulator.
fn flush(book: &mut Book, chapter: Chapter)
    ensures
        final(book)@ == flush_chapter(old(book)@, chapter@),
{
    if chapter.number > 0 {
        book.chapters.push(chapter);
        assert(chapters_view(book.chapters@) =~= chapters_view(old(book).chapters@).push(chapter@));
    }
}

/// The verse text of a verse line.
fn read_verse(l: &[char]) -> (r: String)
    ensures
        r@ == verse_text(l@),
{
    let mut j: usize = 0;
    assert(l@.skip(0) =~= l@);
    while j < l.len() && '0' <= l[j] && l[j] <= '9'
        invariant
            j <= l.len(),
            strip_digits(l@) == strip_digits(l@.skip(j as int)),
        decreases l.len() - j,
    {
        proof {
            lemma_strip_step(l@, j as int);
        }
        j += 1;
    }
    let rest = slice_chars(l, j, l.len());
    assert(rest@ =~= l@.skip(j as int));
    string_of(&trim_chars(&rest))
}

/// Reads books from the lines of the text, taking abbreviations from the
/// rows of the table; `None` where a chapter header's number does not read.
pub fn load_books(lines: &Vec<Vec<char>>, rows: &Vec<Vec<char>>) -> (r: Option<Vec<Book>>)
    ensures
        match r {
            Some(b) => load_spec(pieces_view(lines@), pieces_view(rows@)) == Some(books_view(b@)),
            None => load_spec(pieces_view(lines@), pieces_view(rows@)) is None,
        },
{
    let ghost lv = pieces_view(lines@);
    let ghost rv = pieces_view(rows@);
    let mut books: Vec<Book> = Vec::new();
    let mut book = Book::empty_book();
    let mut chapter = Chapter::empty_chapter();
    let mut i: usize = 0;
    assert(books_view(books@) =~= seq![]);
    while i < lines.len()
        invariant
            i <= lines.len(),
            lv == pieces_view(lines@),
            rv == pieces_view(rows@),
            run(lv.take(i as int), rv) == Some(
                LoadState { books: books_view(books@), book: book@, chapter: chapter@ },
            ),
        decreases lines.len() - i,
    {
        assert(lv.take(i + 1).drop_last() =~= lv.take(i as int));
        assert(lv.take(i + 1).last() == lines@[i as int]@);
        let l = trim_chars(&lines[i]);
        if starts_with(&l, "THE BOOK OF ") {
            let old_chapter = chapter;
            chapter = Chapter::empty_chapter();
            flush(&mut book, old_chapter);
            let n = "THE BOOK OF ".unicode_len();
            let title_chars = slice_chars(&l, n, l.len());
            assert(title_chars@ =~= l@.skip(book_marker().len() as int));
            let abbreviations = load_abbreviations(&title_chars, rows);
            let done = book;
            book = Book { title: string_of(&title_chars), chapters: Vec::new(), abbreviations };
            assert(book@.chapters =~= seq![]);
            let ghost prev_books = books_view(books@);
            let ghost done_v = done@;
            if done.chapters.len() > 0 {
                books.push(done);
                assert(books_view(books@) =~= prev_books.push(done_v));
            }
        } else if starts_with(&l, "CHAPTER ") || starts_with(&l, "PSALM ") {
            let n = if starts_with(&l, "CHAPTER ") {
                "CHAPTER ".unicode_len()
            } else {
                "PSALM ".unicode_len()
            };
            let rest = slice_chars(&l, n, l.len());
            let parts = split_chars(&rest, ' ');
            assert(rest@ =~= l@.skip(n as int));
            assert(pieces_view(parts@).len() == parts@.len());
            assert(pieces_view(parts@)[0] == parts@[0]@);
            assert(chapter_token(l@) == parts@[0]@);
            match parse_u32(&parts[0]) {
                Some(number) => {
                    let old_chapter = chapter;
                    chapter = Chapter { number, verses: Vec::new() };
                    assert(chapter@.verses =~= seq![]);
                    flush(&mut book, old_chapter);
                },
                None => {
                    proof {
                        lemma_run_failed_stays(lv, rv, i + 1, lv.len() as int);
                        assert(lv.take(lv.len() as int) =~= lv);
                    }
                    return None;
                },
            }
        } else if l.len() > 0 && '1' <= l[0] && l[0] <= '9' {
            let v = read_verse(&l);
            let ghost prev = chapter@;
            let ghost v_v = v@;
            chapter.verses.push(v);
            assert(chapter@.verses =~= prev.verses.push(v_v));
        }
        i += 1;
    }
    assert(lv.take(lines.len() as int) =~= lv);
    let ghost st = LoadState { books: books_view(books@), book: book@, chapter: chapter@ };
    book.chapters.push(chapter);
    assert(book@.chapters =~= st.book.chapters.push(st.chapter));
    let ghost book_v = book@;
    books.push(book);
    assert(books_view(books@) =~= finish(st));
    Some(books)
}

} // verus!
