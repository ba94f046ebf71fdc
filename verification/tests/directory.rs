use wiki_store::articles::ArticleId;
use wiki_store::error::WikiError;
use wiki_store::id::Id;
use wiki_store::store::Store;

fn store() -> Store {
    let sled_db = sled::Config::default()
        .temporary(true)
        .open()
        .expect("Failed to create sled db");
    Store::load_or_create(sled_db).expect("Failed to open database")
}

#[test]
fn rename_to_a_taken_name_is_refused_and_changes_nothing() {
    let mut db = store();
    let a = db.articles.create("A").unwrap();
    let b = db.articles.create("B").unwrap();
    assert!(matches!(
        db.articles.change_name(a, "B"),
        Err(WikiError::DuplicateArticleName(name)) if name == "B"
    ));
    assert_eq!(db.articles.id_by_name("A").unwrap(), Some(a));
    assert_eq!(db.articles.name_by_id(a).unwrap(), "A");
    assert_eq!(db.articles.id_by_name("B").unwrap(), Some(b));
    assert_eq!(db.articles.name_by_id(b).unwrap(), "B");
}

#[test]
fn rename_moves_the_name() {
    let mut db = store();
    let a = db.articles.create("A").unwrap();
    db.articles.change_name(a, "B").unwrap();
    assert_eq!(db.articles.id_by_name("A").unwrap(), None);
    assert!(!db.articles.name_exists("A").unwrap());
    assert_eq!(db.articles.id_by_name("B").unwrap(), Some(a));
    assert!(db.articles.name_exists("B").unwrap());
    assert_eq!(db.articles.name_by_id(a).unwrap(), "B");
    // The old name is free again.
    let c = db.articles.create("A").unwrap();
    assert_ne!(c, a);
    assert_eq!(db.articles.id_by_name("A").unwrap(), Some(c));
}

#[test]
fn rename_to_the_own_name_is_accepted() {
    let mut db = store();
    let a = db.articles.create("A").unwrap();
    db.articles.change_name(a, "A").unwrap();
    assert_eq!(db.articles.id_by_name("A").unwrap(), Some(a));
    assert_eq!(db.articles.name_by_id(a).unwrap(), "A");
}

#[test]
fn rename_keeps_the_history() {
    let mut db = store();
    let a = db.articles.create("A").unwrap();
    let author = wiki_store::users::UserId(Id(0));
    let (rev_id, _) = db.articles.add_revision(a, author, "text").unwrap();
    db.articles.change_name(a, "B").unwrap();
    assert_eq!(db.articles.get_current_revision(a).unwrap().unwrap().0, rev_id);
    assert_eq!(db.articles.get_rev_content(rev_id).unwrap(), "text");
}

#[test]
fn rename_of_an_unknown_article_is_a_fault() {
    let mut db = store();
    let stranger = ArticleId(Id(9));
    assert!(matches!(
        db.articles.change_name(stranger, "B"),
        Err(WikiError::ArticleDataInconsistent(id)) if id == stranger
    ));
    assert_eq!(db.articles.id_by_name("B").unwrap(), None);
}

#[test]
fn create_refuses_a_taken_name() {
    let mut db = store();
    let a = db.articles.create("A").unwrap();
    assert!(matches!(
        db.articles.create("A"),
        Err(WikiError::DuplicateArticleName(name)) if name == "A"
    ));
    assert_eq!(db.articles.list_articles().unwrap(), vec![a]);
    assert_eq!(db.articles.id_by_name("A").unwrap(), Some(a));
}

#[test]
fn article_identifiers_count_up_from_zero() {
    let mut db = store();
    assert_eq!(db.articles.list_articles().unwrap(), vec![]);
    let names = ["zeta", "alpha", "mid", "beta"];
    for (i, name) in names.iter().enumerate() {
        assert_eq!(db.articles.create(name).unwrap(), ArticleId(Id(i as u32)));
    }
    assert_eq!(
        db.articles.list_articles().unwrap(),
        vec![ArticleId(Id(0)), ArticleId(Id(1)), ArticleId(Id(2)), ArticleId(Id(3))]
    );
    for (i, name) in names.iter().enumerate() {
        assert_eq!(db.articles.name_by_id(ArticleId(Id(i as u32))).unwrap(), *name);
    }
}

#[test]
fn many_articles_are_listed_in_ascending_order() {
    let mut db = store();
    for i in 0..300u32 {
        assert_eq!(db.articles.create(&format!("article {}", i)).unwrap(), ArticleId(Id(i)));
    }
    let list = db.articles.list_articles().unwrap();
    assert_eq!(list.len(), 300);
    for (i, id) in list.iter().enumerate() {
        assert_eq!(*id, ArticleId(Id(i as u32)));
    }
}

#[test]
fn unknown_names_and_identifiers() {
    let mut db = store();
    db.articles.create("A").unwrap();
    assert_eq!(db.articles.id_by_name("B").unwrap(), None);
    assert_eq!(db.articles.id_by_name("").unwrap(), None);
    assert!(!db.articles.name_exists("a").unwrap());
    let stranger = ArticleId(Id(5));
    assert!(matches!(
        db.articles.name_by_id(stranger),
        Err(WikiError::ArticleDataInconsistent(id)) if id == stranger
    ));
}

#[test]
fn names_are_kept_byte_for_byte() {
    let mut db = store();
    let plain = db.articles.create("Main Page").unwrap();
    let accented = db.articles.create("Übersicht/Ärger").unwrap();
    let empty = db.articles.create("").unwrap();
    assert_eq!(db.articles.id_by_name("Main Page").unwrap(), Some(plain));
    assert_eq!(db.articles.id_by_name("main page").unwrap(), None);
    assert_eq!(db.articles.id_by_name("Übersicht/Ärger").unwrap(), Some(accented));
    assert_eq!(db.articles.name_by_id(accented).unwrap(), "Übersicht/Ärger");
    assert_eq!(db.articles.id_by_name("").unwrap(), Some(empty));
    assert_eq!(db.articles.name_by_id(empty).unwrap(), "");
}

#[test]
fn a_store_that_was_opened_is_over_its_own_relations() {
    let mut db = store();
    assert!(db.is_valid());
    assert!(db.articles.is_valid());
    assert!(db.users.is_valid());
    assert!(db.settings.is_valid());
    // Writing leaves it so.
    let a = db.articles.create("A").unwrap();
    db.articles.change_name(a, "B").unwrap();
    db.users.register_hashed("someone", "hash").unwrap();
    db.set_registration_enabled(false).unwrap();
    db.flush().unwrap();
    assert!(db.is_valid());
}
