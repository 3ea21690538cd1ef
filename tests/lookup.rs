use bible::corpus::LoadError;
use bible::lookup::{capitalize_first_letter, format_title, Bible, Resolution};

const ABBREVIATIONS: &str = "Gen,Genesis\n\nPs, psalms \nPsa,Psalms\nRev,Revelation\nno comma here\n1Pe,First Peter\n";

fn chapter(out: &mut String, header: &str, number: u32, count: u32, known: &[(u32, &str)]) {
    out.push_str(&format!("{} {}\n\n", header, number));
    for v in 1..=count {
        let text = match known.iter().find(|(k, _)| *k == v) {
            Some((_, t)) => t.to_string(),
            None => format!("Words of verse {} in chapter {}.", v, number),
        };
        out.push_str(&format!("{} {}\n", v, text));
    }
    out.push('\n');
}

fn corpus_text() -> String {
    let mut t = String::new();
    t.push_str("The Holy Bible\n\n0 a line that is not a verse\n\n");
    t.push_str("THE BOOK OF GENESIS\n\n");
    chapter(&mut t, "CHAPTER", 1, 31, &[(1, "In the beginning God created the heaven and the earth.")]);
    chapter(&mut t, "CHAPTER", 50, 26, &[(26, "So Joseph died, [being] an hundred and ten years old: and they embalmed him, and he was put in a coffin in Egypt.")]);
    t.push_str("THE BOOK OF JOB\n\n");
    chapter(&mut t, "CHAPTER", 42, 17, &[]);
    t.push_str("THE BOOK OF PSALMS\n\n");
    chapter(&mut t, "PSALM", 3, 8, &[(5, "I laid me down and slept; I awaked; for the LORD sustained me.")]);
    chapter(&mut t, "PSALM", 119, 176, &[(105, "Thy word [is] a lamp unto my feet, and a light unto my path.")]);
    t.push_str("THE BOOK OF SONG OF SOLOMON\n\n");
    chapter(&mut t, "CHAPTER", 6, 13, &[(7, "As a piece of a pomegranate [are] thy temples within thy locks.")]);
    t.push_str("THE BOOK OF ISAIAH\n\n");
    chapter(&mut t, "CHAPTER", 42, 25, &[]);
    t.push_str("THE BOOK OF MARK\n\n");
    chapter(&mut t, "CHAPTER", 16, 20, &[(20, "And they went forth, and preached every where, the Lord working with [them], and confirming the word with signs following. Amen.")]);
    t.push_str("THE BOOK OF PHILEMON\n\n");
    chapter(&mut t, "CHAPTER", 1, 25, &[(1, "Paul, a prisoner of Jesus Christ, and Timothy [our] brother, unto Philemon our dearly beloved, and fellowlabourer,")]);
    t.push_str("THE BOOK OF FIRST PETER\n\n");
    chapter(&mut t, "CHAPTER", 3, 22, &[(5, "For after this manner in the old time the holy women also, who trusted in God, adorned themselves, being in subjection unto their own husbands:")]);
    t.push_str("THE BOOK OF REVELATION\n\n");
    chapter(&mut t, "CHAPTER", 22, 21, &[(21, "The grace of our Lord Jesus Christ [be] with you all. Amen.")]);
    t
}

fn load() -> Bible {
    Bible::load_bible(&corpus_text(), ABBREVIATIONS).unwrap()
}

#[test]
fn first_bible_verse() {
    let bible = load();
    let result = bible.search("Genesis 1:1");
    let result = result.trim_start_matches("Genesis 1:1");
    assert_eq!(
        result,
        " In the beginning God created the heaven and the earth."
    );
}

#[test]
fn book_not_found() {
    let bible = load();
    let result = bible.search("JAB 42:17 ");
    let result = result.trim_start_matches("Jab 42:17");
    assert_eq!(result, "Book not found");
}

#[test]
fn chapter_not_found() {
    let bible = load();
    let result = bible.search("JOB 43:17 ");
    let result = result.trim_start_matches("Job 43:17");
    assert_eq!(result, "Chapter not found");
}

#[test]
fn verse_not_found() {
    let bible = load();
    let result = bible.search("JOB 42:18  ");
    let result = result.trim_start_matches("Job 42:18");
    assert_eq!(result, "Verse not found");
}

#[test]
fn verse_in_psalms() {
    let bible = load();
    let result = bible.search("PSALMS 3:5 ");
    let result = result.trim_start_matches("Psalms 3:5");
    assert_eq!(
        result,
        " I laid me down and slept; I awaked; for the LORD sustained me."
    );
}

#[test]
fn multi_book_name() {
    let bible = load();
    let result = bible.search("SONG OF SOLOMON 6:7 ");
    let result = result.trim_start_matches("Song Of Solomon 6:7");
    assert_eq!(
        result,
        " As a piece of a pomegranate [are] thy temples within thy locks."
    );
}

#[test]
fn last_verse_in_chapter() {
    let bible = load();
    let result = bible.search("MARK 16:20  ");
    let result = result.trim_start_matches("Mark 16:20");
    assert_eq!(result, " And they went forth, and preached every where, the Lord working with [them], and confirming the word with signs following. Amen.");
}

#[test]
fn last_verse_in_bible() {
    let bilbe = load();
    let result = bilbe.search("REVELATION 22:21 ");
    let result = result.trim_start_matches("Revelation 22:21");
    assert_eq!(
        result,
        " The grace of our Lord Jesus Christ [be] with you all. Amen."
    );
}

#[test]
fn last_verse_in_genesis() {
    let bible = load();
    let result = bible.search("GENESIS 50:26 ");
    let result = result.trim_start_matches("Genesis 50:26");
    assert_eq!(result, " So Joseph died, [being] an hundred and ten years old: and they embalmed him, and he was put in a coffin in Egypt.");
}

#[test]
fn three_digit_chapter_and_verse() {
    let bible = load();
    let result = bible.search("PSALMS 119:105  ");
    let result = result.trim_start_matches("Psalms 119:105");
    assert_eq!(
        result,
        " Thy word [is] a lamp unto my feet, and a light unto my path."
    );
}

#[test]
fn non_existent_zero_verse() {
    let bilbe = load();
    let result = bilbe.search("ISAIAH 42:0 ");
    let result = result.trim_start_matches("Isaiah 42:0");
    assert_eq!(result, "Verse not found");
}

#[test]
fn verse_in_book_with_one_chapter() {
    let bible = load();
    let result = bible.search("PHILEMON 1:1");
    let result = result.trim_start_matches("Philemon 1:1");
    assert_eq!(result, " Paul, a prisoner of Jesus Christ, and Timothy [our] brother, unto Philemon our dearly beloved, and fellowlabourer,");
}

#[test]
fn test_two_word_book_name() {
    let bible = load();
    let result = bible.search("FIRST PETER 3:5 ");
    let result = result.trim_start_matches("First Peter 3:5");
    assert_eq!(result, " For after this manner in the old time the holy women also, who trusted in God, adorned themselves, being in subjection unto their own husbands:");
}

#[test]
fn test_non_existent_last_chapter_in_revelations() {
    let bible = load();
    let result = bible.search("REVELATION 23:1  ");
    let result = result.trim_start_matches("Revelation 23:1");
    assert_eq!(result, "Chapter not found");
}

#[test]
fn test_non_existent_last_verse_in_revelations() {
    let bible = load();
    let result = bible.search("REVELATION 22:22 ");
    let result = result.trim_start_matches("Revelation 22:22");
    assert_eq!(result, "Verse not found");
}

fn found_text(r: Resolution) -> String {
    match r {
        Resolution::Found(s) => s,
        _ => panic!("expected a verse"),
    }
}

#[test]
fn corpus_has_books_in_order() {
    let bible = load();
    let titles: Vec<&str> = bible.books.iter().map(|b| b.title.as_str()).collect();
    assert_eq!(
        titles,
        vec!["GENESIS", "JOB", "PSALMS", "SONG OF SOLOMON", "ISAIAH", "MARK", "PHILEMON", "FIRST PETER", "REVELATION"]
    );
    assert_eq!(bible.books[0].chapters.len(), 2);
    assert_eq!(bible.books[0].chapters[1].number, 50);
    assert_eq!(bible.books[0].chapters[1].verses.len(), 26);
    assert_eq!(bible.books[2].chapters[1].number, 119);
    assert_eq!(bible.books[0].abbreviations, vec!["Gen".to_string()]);
    assert_eq!(bible.books[2].abbreviations, vec!["Ps".to_string(), "Psa".to_string()]);
    assert_eq!(bible.books[7].abbreviations, vec!["1Pe".to_string()]);
}

#[test]
fn verse_digits_stripped_and_trimmed() {
    let bible = Bible::load_bible("THE BOOK OF RUTH\nCHAPTER 2\n  12   Some   text  \n7\n", "").unwrap();
    assert_eq!(bible.books.len(), 1);
    let ch = &bible.books[0].chapters[0];
    assert_eq!(ch.number, 2);
    assert_eq!(ch.verses, vec!["Some   text".to_string(), "".to_string()]);
    assert_eq!(bible.search("ruth 2:1"), "Ruth 2:1 Some   text");
}

#[test]
fn trailing_book_without_chapters_is_kept() {
    let bible = Bible::load_bible("THE BOOK OF RUTH\nCHAPTER 1\n1 A\nTHE BOOK OF EMPTY\n", "").unwrap();
    assert_eq!(bible.books.len(), 2);
    assert_eq!(bible.books[1].title, "EMPTY");
    assert_eq!(bible.books[1].chapters.len(), 1);
    assert_eq!(bible.books[1].chapters[0].number, 0);
    assert_eq!(bible.search("empty 1:1"), "Chapter not found");
}

#[test]
fn book_without_chapters_is_dropped() {
    let bible = Bible::load_bible("THE BOOK OF EMPTY\nTHE BOOK OF RUTH\nCHAPTER 1\n1 A\n", "").unwrap();
    assert_eq!(bible.books.len(), 1);
    assert_eq!(bible.books[0].title, "RUTH");
}

#[test]
fn bad_chapter_number_is_an_error() {
    let r = Bible::load_bible("THE BOOK OF RUTH\nCHAPTER one\n1 A\n", "");
    assert!(matches!(r, Err(LoadError::BadChapterNumber)));
    let r = Bible::load_bible("THE BOOK OF RUTH\nPSALM 99999999999\n", "");
    assert!(matches!(r, Err(LoadError::BadChapterNumber)));
}

#[test]
fn empty_and_single_token_queries_are_invalid() {
    let bible = load();
    assert!(matches!(bible.resolve(""), Resolution::InvalidQuery));
    assert!(matches!(bible.resolve("   "), Resolution::InvalidQuery));
    assert!(matches!(bible.resolve("Genesis"), Resolution::InvalidQuery));
    assert!(matches!(bible.resolve("1:1"), Resolution::InvalidQuery));
    assert_eq!(bible.search(""), "Invalid lookup");
}

#[test]
fn query_without_colon_is_invalid() {
    let bible = load();
    assert!(matches!(bible.resolve("Genesis 1"), Resolution::InvalidQuery));
    assert!(matches!(bible.resolve("Genesis 1:1:1"), Resolution::InvalidQuery));
    assert!(matches!(bible.resolve("Genesis a:1"), Resolution::InvalidQuery));
    assert!(matches!(bible.resolve("Genesis 1:"), Resolution::InvalidQuery));
}

#[test]
fn book_names_ignore_case() {
    let bible = load();
    let a = found_text(bible.resolve("genesis 1:1"));
    let b = found_text(bible.resolve("GENESIS 1:1"));
    let c = found_text(bible.resolve("Genesis 1:1"));
    assert_eq!(a, b);
    assert_eq!(b, c);
    assert_eq!(a, "Genesis 1:1 In the beginning God created the heaven and the earth.");
}

#[test]
fn abbreviation_finds_same_verse() {
    let bible = load();
    assert_eq!(bible.search("gen 50:26"), bible.search("Genesis 50:26"));
    assert_eq!(bible.search("PSA 119:105"), bible.search("psalms 119:105"));
    assert_eq!(bible.search("1pe 3:5"), bible.search("first peter 3:5"));
}

#[test]
fn chapter_below_one_is_chapter_not_found() {
    let bible = load();
    assert!(matches!(bible.resolve("Genesis 0:1"), Resolution::ChapterNotFound));
    assert!(matches!(bible.resolve("Genesis -1:0"), Resolution::ChapterNotFound));
    assert!(matches!(bible.resolve("Genesis -3:99"), Resolution::ChapterNotFound));
}

#[test]
fn verse_out_of_range_is_verse_not_found() {
    let bible = load();
    assert!(matches!(bible.resolve("Genesis 1:0"), Resolution::VerseNotFound));
    assert!(matches!(bible.resolve("Genesis 1:-4"), Resolution::VerseNotFound));
    assert!(matches!(bible.resolve("Genesis 1:32"), Resolution::VerseNotFound));
    assert!(matches!(bible.resolve("Genesis 1:31"), Resolution::Found(_)));
}

#[test]
fn unknown_book_is_book_not_found() {
    let bible = load();
    assert!(matches!(bible.resolve("Exodus 1:1"), Resolution::BookNotFound));
    assert!(matches!(bible.resolve("Song Solomon 6:7"), Resolution::BookNotFound));
}

#[test]
fn corpus_boundaries_resolve() {
    let bible = load();
    let first = &bible.books[0];
    let q = format!("{} {}:1", first.title, first.chapters[0].number);
    assert!(matches!(bible.resolve(&q), Resolution::Found(_)));
    let last = bible.books.last().unwrap();
    let ch = last.chapters.last().unwrap();
    let q = format!("{} {}:{}", last.title, ch.number, ch.verses.len());
    assert_eq!(
        bible.search(&q),
        "Revelation 22:21 The grace of our Lord Jesus Christ [be] with you all. Amen."
    );
}

#[test]
fn lookup_by_parts() {
    let bible = load();
    assert_eq!(
        found_text(bible.lookup("song of solomon", 6, 7)),
        "Song Of Solomon 6:7 As a piece of a pomegranate [are] thy temples within thy locks."
    );
    assert!(matches!(bible.lookup("job", 43, 1), Resolution::ChapterNotFound));
    assert_eq!(Resolution::VerseNotFound.message(), "Verse not found");
    assert_eq!(Resolution::BookNotFound.message(), "Book not found");
}

#[test]
fn book_and_chapter_lookup() {
    let bible = load();
    let job = bible.book_by_title("jOb").unwrap();
    assert_eq!(job.title, "JOB");
    assert!(bible.book_by_title("Jo").is_none());
    assert_eq!(bible.book_by_title("rev").unwrap().title, "REVELATION");
    let ch = job.chapter_by_number(42).unwrap();
    assert_eq!(ch.number, 42);
    assert!(job.chapter_by_number(0).is_none());
    assert_eq!(ch.verse_by_number(17).unwrap(), "Words of verse 17 in chapter 42.");
    assert!(ch.verse_by_number(18).is_none());
    assert!(ch.verse_by_number(-1).is_none());
}

#[test]
fn titles_are_capitalized_per_word() {
    assert_eq!(capitalize_first_letter("gENESIS"), "Genesis");
    assert_eq!(capitalize_first_letter(""), "");
    assert_eq!(format_title("SONG OF SOLOMON"), "Song Of Solomon");
    assert_eq!(format_title("first peter"), "First Peter");
    assert_eq!(format_title("A  B"), "A  B");
}
