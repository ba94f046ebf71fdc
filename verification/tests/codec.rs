use wiki_store::allocator::next_after;
use wiki_store::articles::rev_id::RevId;
use wiki_store::articles::{decode_author, decode_content, decode_date, ArticleId};
use wiki_store::clock::Timestamp;
use wiki_store::error::{StatusClass, WikiError};
use wiki_store::id::Id;
use wiki_store::users::UserId;

fn rev(article: u32, number: u32) -> RevId {
    RevId(ArticleId(Id(article)), Id(number))
}

#[test]
fn id_encodes_big_endian() {
    assert_eq!(Id(0x0102_0304).to_bytes(), [1, 2, 3, 4]);
    assert_eq!(Id(0).to_bytes(), [0, 0, 0, 0]);
    assert_eq!(Id(u32::MAX).to_bytes(), [255, 255, 255, 255]);
    assert_eq!(Id(256).to_bytes(), [0, 0, 1, 0]);
}

#[test]
fn id_decodes_what_it_encoded() {
    for n in [0u32, 1, 255, 256, 65_535, 65_536, 0x0102_0304, u32::MAX - 1, u32::MAX] {
        assert_eq!(Id::from_bytes(&Id(n).to_bytes()).unwrap(), Id(n));
    }
    assert_eq!(Id::from_bytes(&[1, 2, 3, 4]).unwrap(), Id(0x0102_0304));
}

#[test]
fn id_rejects_other_widths() {
    assert!(matches!(Id::from_bytes(&[]), Err(WikiError::MalformedKey)));
    assert!(matches!(Id::from_bytes(&[1, 2, 3]), Err(WikiError::MalformedKey)));
    assert!(matches!(
        Id::from_bytes(&[1, 2, 3, 4, 5]),
        Err(WikiError::MalformedKey)
    ));
}

#[test]
fn id_bytes_sort_as_the_numbers_do() {
    let numbers = [0u32, 1, 2, 255, 256, 257, 65_535, 65_536, 16_777_215, 16_777_216, u32::MAX];
    for a in numbers {
        for b in numbers {
            assert_eq!(Id(a).to_bytes() < Id(b).to_bytes(), a < b);
        }
    }
}

#[test]
fn id_first_and_next() {
    assert_eq!(Id::first(), Id(0));
    assert_eq!(Id::first().next(), Id(1));
    assert_eq!(Id(41).next(), Id(42));
    assert_eq!(Id::from(7), Id(7));
}

#[test]
fn rev_id_encodes_article_then_number() {
    assert_eq!(rev(7, 9).to_bytes(), [0, 0, 0, 7, 0, 0, 0, 9]);
    assert_eq!(
        rev(0x0102_0304, 0x0506_0708).to_bytes(),
        [1, 2, 3, 4, 5, 6, 7, 8]
    );
}

#[test]
fn rev_id_decodes_what_it_encoded() {
    assert_eq!(RevId::from_bytes(&[0, 0, 0, 7, 0, 0, 0, 9]).unwrap(), rev(7, 9));
    for (a, n) in [(0u32, 1u32), (1, 0), (u32::MAX, u32::MAX), (300, 70_000)] {
        assert_eq!(RevId::from_bytes(&rev(a, n).to_bytes()).unwrap(), rev(a, n));
    }
}

#[test]
fn rev_id_rejects_other_widths() {
    assert!(matches!(RevId::from_bytes(&[]), Err(WikiError::MalformedKey)));
    assert!(matches!(
        RevId::from_bytes(&[0, 0, 0, 7]),
        Err(WikiError::MalformedKey)
    ));
    assert!(matches!(
        RevId::from_bytes(&[0, 0, 0, 7, 0, 0, 0]),
        Err(WikiError::MalformedKey)
    ));
    assert!(matches!(
        RevId::from_bytes(&[0, 0, 0, 7, 0, 0, 0, 9, 1]),
        Err(WikiError::MalformedKey)
    ));
}

#[test]
fn rev_id_keys_sort_by_article_then_number() {
    let ids = [rev(1, 1), rev(1, 2), rev(1, 256), rev(1, u32::MAX), rev(2, 1), rev(256, 1)];
    for (i, a) in ids.iter().enumerate() {
        for (j, b) in ids.iter().enumerate() {
            assert_eq!(a.to_bytes() < b.to_bytes(), i < j);
        }
    }
}

#[test]
fn rev_id_first_next_and_parts() {
    let first = RevId::first(ArticleId(Id(5)));
    assert_eq!(first, rev(5, 1));
    assert_eq!(first.next(), rev(5, 2));
    assert_eq!(first.article_id(), ArticleId(Id(5)));
    assert_eq!(first.rev_number(), Id(1));
    assert_eq!(ArticleId(Id(5)).id(), Id(5));
    assert_eq!(ArticleId(Id(258)).to_bytes(), [0, 0, 1, 2]);
    assert_eq!(UserId(Id(258)).to_bytes(), [0, 0, 1, 2]);
    assert_eq!(UserId(Id(3)).id(), Id(3));
}

#[test]
fn next_identifier_follows_the_last_key() {
    assert_eq!(next_after(None).unwrap(), Id(0));
    assert_eq!(next_after(Some(vec![0, 0, 0, 5])).unwrap(), Id(6));
    assert_eq!(next_after(Some(vec![0, 0, 0, 255])).unwrap(), Id(256));
    assert!(matches!(
        next_after(Some(vec![0, 0, 5])),
        Err(WikiError::MalformedKey)
    ));
    assert!(matches!(
        next_after(Some(vec![255, 255, 255, 255])),
        Err(WikiError::IdSpaceExhausted)
    ));
}

#[test]
fn stored_date_is_twelve_little_endian_bytes() {
    let bytes = [1u8, 2, 0, 0, 0, 0, 0, 0, 3, 4, 0, 0];
    assert_eq!(
        decode_date(rev(1, 1), Some(&bytes)).unwrap(),
        Timestamp { secs: 513, nanos: 1027 }
    );
    let negative = [255u8, 255, 255, 255, 255, 255, 255, 255, 0, 0, 0, 0];
    assert_eq!(
        decode_date(rev(1, 1), Some(&negative)).unwrap(),
        Timestamp { secs: -1, nanos: 0 }
    );
}

#[test]
fn stored_date_must_have_twelve_bytes() {
    assert!(matches!(
        decode_date(rev(1, 1), Some(&[1, 2, 3])),
        Err(WikiError::Bincode(_))
    ));
    assert!(matches!(
        decode_date(rev(1, 1), Some(&[0; 11])),
        Err(WikiError::Bincode(_))
    ));
    // More than twelve bytes are no date either: nothing is read past a
    // date, and nothing is left over.
    let longer = [1u8, 2, 0, 0, 0, 0, 0, 0, 3, 4, 0, 0, 9, 9];
    assert!(matches!(
        decode_date(rev(1, 1), Some(&longer)),
        Err(WikiError::Bincode(_))
    ));
    // A date written down as text, behind its length, is refused as well.
    let mut text = vec![20u8, 0, 0, 0, 0, 0, 0, 0];
    text.extend_from_slice(b"2021-06-01T12:00:00Z");
    assert!(matches!(
        decode_date(rev(1, 1), Some(&text)),
        Err(WikiError::Bincode(_))
    ));
    assert!(matches!(
        decode_date(rev(1, 1), None),
        Err(WikiError::RevisionDataInconsistent(id)) if id == rev(1, 1)
    ));
}

#[test]
fn stored_author_is_a_user_key() {
    assert_eq!(
        decode_author(rev(1, 1), Some(&[0, 0, 1, 0])).unwrap(),
        UserId(Id(256))
    );
    assert!(matches!(
        decode_author(rev(1, 1), Some(&[0, 0, 1])),
        Err(WikiError::MalformedKey)
    ));
    assert!(matches!(
        decode_author(rev(1, 1), None),
        Err(WikiError::RevisionDataInconsistent(id)) if id == rev(1, 1)
    ));
}

#[test]
fn stored_text_is_utf8() {
    assert_eq!(
        decode_content(rev(1, 1), Some("héllo".as_bytes())).unwrap(),
        "héllo"
    );
    assert_eq!(decode_content(rev(1, 1), Some(&[])).unwrap(), "");
    assert!(matches!(
        decode_content(rev(1, 1), Some(&[0xff, 0xfe])),
        Err(WikiError::RevisionDataInconsistent(id)) if id == rev(1, 1)
    ));
    assert!(matches!(
        decode_content(rev(1, 1), None),
        Err(WikiError::RevisionDataInconsistent(id)) if id == rev(1, 1)
    ));
}

#[test]
fn failures_fall_into_three_classes() {
    let a = ArticleId(Id(1));
    let u = UserId(Id(1));
    assert_eq!(WikiError::IdenticalNewRevision.status(), StatusClass::BadRequest);
    assert_eq!(
        WikiError::DuplicateArticleName("x".to_string()).status(),
        StatusClass::BadRequest
    );
    assert_eq!(
        WikiError::UserAlreadyExists("x".to_string()).status(),
        StatusClass::BadRequest
    );
    assert_eq!(WikiError::RevisionUnknown(a, Id(2)).status(), StatusClass::NotFound);
    assert_eq!(
        WikiError::RevisionDataInconsistent(rev(1, 2)).status(),
        StatusClass::InternalServerError
    );
    assert_eq!(
        WikiError::ArticleDataInconsistent(a).status(),
        StatusClass::InternalServerError
    );
    assert_eq!(
        WikiError::UserDataInconsistent(u).status(),
        StatusClass::InternalServerError
    );
    assert_eq!(WikiError::PasswordNotFound(u).status(), StatusClass::InternalServerError);
    assert_eq!(WikiError::MalformedKey.status(), StatusClass::InternalServerError);
    assert_eq!(WikiError::IdSpaceExhausted.status(), StatusClass::InternalServerError);
    assert_eq!(StatusClass::BadRequest.code(), 400);
    assert_eq!(StatusClass::NotFound.code(), 404);
    assert_eq!(StatusClass::InternalServerError.code(), 500);
}
