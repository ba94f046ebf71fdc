use wiki_store::articles::rev_id::RevId;
use wiki_store::articles::{assemble_revision, next_revision_id, ArticleId, Revision, RevisionMeta};
use wiki_store::clock::Timestamp;
use wiki_store::error::WikiError;
use wiki_store::id::Id;
use wiki_store::store::Store;
use wiki_store::users::UserId;

fn store() -> Store {
    let sled_db = sled::Config::default()
        .temporary(true)
        .open()
        .expect("Failed to create sled db");
    Store::load_or_create(sled_db).expect("Failed to open database")
}

fn at(secs: i64) -> Timestamp {
    Timestamp { secs, nanos: 500 }
}

const U1: UserId = UserId(Id(11));
const U2: UserId = UserId(Id(12));

#[test]
fn revision_numbers_count_up_from_one() {
    let mut db = store();
    let a = db.articles.create("A").unwrap();
    let texts = ["one", "two", "three", "four", "five", "one"];
    for (i, text) in texts.iter().enumerate() {
        let (rev_id, meta) = db.articles.add_revision(a, U1, text).unwrap();
        assert_eq!(rev_id, RevId(a, Id(i as u32 + 1)));
        assert_eq!(meta.author_id, U1);
    }
    assert_eq!(db.articles.list_revisions(a).unwrap().len(), 6);
}

#[test]
fn identical_text_is_rejected_and_nothing_is_written() {
    let mut db = store();
    let a = db.articles.create("A").unwrap();
    db.articles.add_revision(a, U1, "same").unwrap();
    let before = db.articles.list_revisions(a).unwrap();
    assert!(matches!(
        db.articles.add_revision(a, U1, "same"),
        Err(WikiError::IdenticalNewRevision)
    ));
    // Another author makes no difference: the text decides.
    assert!(matches!(
        db.articles.add_revision(a, U2, "same"),
        Err(WikiError::IdenticalNewRevision)
    ));
    assert_eq!(db.articles.list_revisions(a).unwrap(), before);
    assert_eq!(before.len(), 1);
    // A text that was current earlier is accepted again.
    db.articles.add_revision(a, U1, "other").unwrap();
    let (rev_id, _) = db.articles.add_revision(a, U1, "same").unwrap();
    assert_eq!(rev_id, RevId(a, Id(3)));
}

#[test]
fn three_revisions_are_listed_in_the_order_written() {
    let mut db = store();
    let a = db.articles.create("A").unwrap();
    let (r1, m1) = db.articles.add_revision_at(a, U1, "first", at(10)).unwrap();
    let (r2, m2) = db.articles.add_revision_at(a, U2, "second", at(20)).unwrap();
    let (r3, m3) = db.articles.add_revision_at(a, U1, "third", at(30)).unwrap();
    assert_eq!(
        db.articles.list_revisions(a).unwrap(),
        vec![(r1, m1), (r2, m2), (r3, m3)]
    );
    assert_eq!(
        vec![r1, r2, r3],
        vec![RevId(a, Id(1)), RevId(a, Id(2)), RevId(a, Id(3))]
    );
    assert_eq!(m2, RevisionMeta { author_id: U2, date: at(20) });
    let (current_id, current) = db.articles.get_current_revision(a).unwrap().unwrap();
    assert_eq!(current_id, r3);
    assert_eq!(
        current,
        Revision { content: "third".to_string(), author_id: U1, date: at(30) }
    );
}

#[test]
fn a_revision_that_was_never_issued_is_unknown() {
    let mut db = store();
    let a = db.articles.create("A").unwrap();
    let b = db.articles.create("B").unwrap();
    db.articles.add_revision(a, U1, "a1").unwrap();
    db.articles.add_revision(b, U1, "b1").unwrap();
    db.articles.add_revision(b, U1, "b2").unwrap();
    // Article A exists and B has a revision 2, but A has none.
    assert!(matches!(
        db.articles.get_revision(RevId(a, Id(2))),
        Err(WikiError::RevisionUnknown(article, number)) if article == a && number == Id(2)
    ));
    assert!(matches!(
        db.articles.get_revision(RevId(a, Id(0))),
        Err(WikiError::RevisionUnknown(_, _))
    ));
    assert!(matches!(
        db.articles.verified_rev_id(a, Id(2)),
        Err(WikiError::RevisionUnknown(article, number)) if article == a && number == Id(2)
    ));
    assert_eq!(db.articles.verified_rev_id(b, Id(2)).unwrap(), RevId(b, Id(2)));
    assert_eq!(db.articles.get_revision(RevId(b, Id(2))).unwrap().content, "b2");
    assert_eq!(db.articles.get_revision(RevId(a, Id(1))).unwrap().content, "a1");
}

#[test]
fn a_revision_reads_back_as_it_was_written() {
    let mut db = store();
    let a = db.articles.create("A").unwrap();
    let date = Timestamp { secs: 1_600_000_000, nanos: 123_456_789 };
    let text = "Grüße, wiki! \u{1F600}";
    let (rev_id, meta) = db.articles.add_revision_at(a, U2, text, date).unwrap();
    assert_eq!(meta, RevisionMeta { author_id: U2, date });
    assert_eq!(
        db.articles.get_revision(rev_id).unwrap(),
        Revision { content: text.to_string(), author_id: U2, date }
    );
    assert_eq!(db.articles.get_rev_content(rev_id).unwrap(), text);
    assert_eq!(db.articles.get_rev_date(rev_id).unwrap(), date);
    assert_eq!(db.articles.get_current_content(a).unwrap(), Some(text.to_string()));
    // Dates before 1970 are kept as well.
    let early = Timestamp { secs: -86_400, nanos: 0 };
    let (rev_id, _) = db.articles.add_revision_at(a, U1, "older", early).unwrap();
    assert_eq!(db.articles.get_rev_date(rev_id).unwrap(), early);
}

#[test]
fn the_clock_dates_a_revision() {
    let mut db = store();
    let a = db.articles.create("A").unwrap();
    let before = Timestamp::now();
    let (rev_id, meta) = db.articles.add_revision(a, U1, "text").unwrap();
    let after = Timestamp::now();
    assert!(before.secs <= meta.date.secs && meta.date.secs <= after.secs);
    assert!(before.secs >= 0 && before.nanos < 1_000_000_000);
    assert!(meta.date.nanos < 1_000_000_000);
    assert!(meta.date.secs > 1_600_000_000);
    assert_eq!(db.articles.get_rev_date(rev_id).unwrap(), meta.date);
}

#[test]
fn main_page_scenario() {
    let mut db = store();
    let a = db.articles.create("MainPage").unwrap();
    let (first, _) = db.articles.add_revision(a, U1, "abc").unwrap();
    assert_eq!(first, RevId(a, Id(1)));
    let (second, _) = db.articles.add_revision(a, U2, "123").unwrap();
    assert_eq!(second, RevId(a, Id(2)));
    let (current_id, current) = db.articles.get_current_revision(a).unwrap().unwrap();
    assert_eq!(current_id, RevId(a, Id(2)));
    assert_eq!(current.content, "123");
    assert_eq!(current.author_id, U2);
    assert!(matches!(
        db.articles.add_revision(a, U2, "123"),
        Err(WikiError::IdenticalNewRevision)
    ));
    let (current_id, current) = db.articles.get_current_revision(a).unwrap().unwrap();
    assert_eq!(current_id, RevId(a, Id(2)));
    assert_eq!(current.content, "123");
}

#[test]
fn an_article_without_revisions_has_no_current_one() {
    let mut db = store();
    let a = db.articles.create("A").unwrap();
    let b = db.articles.create("B").unwrap();
    db.articles.add_revision(b, U1, "b1").unwrap();
    assert_eq!(db.articles.get_current_revision(a).unwrap(), None);
    assert_eq!(db.articles.get_current_content(a).unwrap(), None);
    assert_eq!(db.articles.list_revisions(a).unwrap(), vec![]);
    // An article that the directory does not know has none either.
    let stranger = ArticleId(Id(77));
    assert_eq!(db.articles.get_current_revision(stranger).unwrap(), None);
    assert_eq!(db.articles.list_revisions(stranger).unwrap(), vec![]);
}

#[test]
fn histories_of_two_articles_do_not_mix() {
    let mut db = store();
    let a = db.articles.create("A").unwrap();
    let b = db.articles.create("B").unwrap();
    db.articles.add_revision(a, U1, "a1").unwrap();
    db.articles.add_revision(b, U2, "b1").unwrap();
    db.articles.add_revision(a, U1, "a2").unwrap();
    // The same text in another article is no repetition.
    let (rev_id, _) = db.articles.add_revision(b, U2, "a2").unwrap();
    assert_eq!(rev_id, RevId(b, Id(2)));
    let of_a: Vec<RevId> = db.articles.list_revisions(a).unwrap().iter().map(|e| e.0).collect();
    let of_b: Vec<RevId> = db.articles.list_revisions(b).unwrap().iter().map(|e| e.0).collect();
    assert_eq!(of_a, vec![RevId(a, Id(1)), RevId(a, Id(2))]);
    assert_eq!(of_b, vec![RevId(b, Id(1)), RevId(b, Id(2))]);
    assert_eq!(db.articles.get_current_content(a).unwrap(), Some("a2".to_string()));
}

#[test]
fn long_histories_stay_in_order() {
    let mut db = store();
    let a = db.articles.create("A").unwrap();
    for i in 0..300u32 {
        let (rev_id, _) = db.articles.add_revision_at(a, U1, &format!("text {}", i), at(i as i64)).unwrap();
        assert_eq!(rev_id.rev_number(), Id(i + 1));
    }
    let list = db.articles.list_revisions(a).unwrap();
    assert_eq!(list.len(), 300);
    for (i, entry) in list.iter().enumerate() {
        assert_eq!(entry.0, RevId(a, Id(i as u32 + 1)));
        assert_eq!(entry.1.date, at(i as i64));
    }
    assert_eq!(
        db.articles.get_current_content(a).unwrap(),
        Some("text 299".to_string())
    );
}

#[test]
fn the_next_revision_follows_the_current_one() {
    let a = ArticleId(Id(3));
    let current = Some((
        RevId(a, Id(41)),
        Revision { content: "old".to_string(), author_id: U1, date: at(1) },
    ));
    assert_eq!(next_revision_id(a, &None, "new").unwrap(), RevId(a, Id(1)));
    assert_eq!(next_revision_id(a, &current, "new").unwrap(), RevId(a, Id(42)));
    assert!(matches!(
        next_revision_id(a, &current, "old"),
        Err(WikiError::IdenticalNewRevision)
    ));
    let last = Some((
        RevId(a, Id(u32::MAX)),
        Revision { content: "old".to_string(), author_id: U1, date: at(1) },
    ));
    assert!(matches!(
        next_revision_id(a, &last, "new"),
        Err(WikiError::IdSpaceExhausted)
    ));
    assert!(matches!(
        next_revision_id(a, &last, "old"),
        Err(WikiError::IdenticalNewRevision)
    ));
}

#[test]
fn a_revision_is_put_together_from_three_values() {
    let id = RevId(ArticleId(Id(1)), Id(2));
    let author = [0u8, 0, 0, 11];
    let date = [10u8, 0, 0, 0, 0, 0, 0, 0, 244, 1, 0, 0];
    let text = "text".as_bytes();
    assert_eq!(
        assemble_revision(id, Some(&author), Some(&date), Some(text)).unwrap(),
        Revision { content: "text".to_string(), author_id: U1, date: at(10) }
    );
    assert!(matches!(
        assemble_revision(id, None, Some(&date), Some(text)),
        Err(WikiError::RevisionDataInconsistent(rev)) if rev == id
    ));
    assert!(matches!(
        assemble_revision(id, Some(&author), None, Some(text)),
        Err(WikiError::RevisionDataInconsistent(rev)) if rev == id
    ));
    assert!(matches!(
        assemble_revision(id, Some(&author), Some(&date), None),
        Err(WikiError::RevisionDataInconsistent(rev)) if rev == id
    ));
    assert!(matches!(
        assemble_revision(id, Some(&author[..3]), Some(&date), Some(text)),
        Err(WikiError::MalformedKey)
    ));
    assert!(matches!(
        assemble_revision(id, Some(&author), Some(&date[..11]), Some(text)),
        Err(WikiError::Bincode(_))
    ));
    assert!(matches!(
        assemble_revision(id, Some(&author), Some(&date), Some(&[0x80])),
        Err(WikiError::RevisionDataInconsistent(rev)) if rev == id
    ));
    // The author is looked at first, then the date, then the text.
    assert!(matches!(
        assemble_revision(id, Some(&author[..3]), None, None),
        Err(WikiError::MalformedKey)
    ));
    assert!(matches!(
        assemble_revision(id, Some(&author), Some(&date[..11]), None),
        Err(WikiError::Bincode(_))
    ));
}
