use wiki_store::cache::{Cache, CaptchaId};
use wiki_store::config::Config;
use wiki_store::error::WikiError;
use wiki_store::forms::{check_registration, AddRevRequest, AdminSettings, RegisterRequest, RegistrationCheck};
use wiki_store::id::Id;
use wiki_store::search::{first_sentence, is_sentence_end};
use wiki_store::store::Store;
use wiki_store::users::{
    admin_key, random_salt, session_of_bytes, LoggedAdmin, SessionId, UserId, UserSession,
};

fn store() -> Store {
    let sled_db = sled::Config::default()
        .temporary(true)
        .open()
        .expect("Failed to create sled db");
    Store::load_or_create(sled_db).expect("Failed to open database")
}

#[test]
fn store_validate_remove_captcha() {
    let mut cache = Cache::default();
    let id1 = CaptchaId::random();
    let solution1 = "12356";
    // Store a first captcha
    cache.register_captcha(id1, solution1);
    // Verify that it works
    assert!(cache.validate_captcha(id1, solution1));
    // But only once
    assert!(!cache.validate_captcha(id1, solution1));
    // And another, just to be sure
    let id2 = CaptchaId::random();
    let solution2 = "98761";
    cache.register_captcha(id2, solution2);
    assert!(cache.validate_captcha(id2, solution2));
    // Still only once
    assert!(!cache.validate_captcha(id2, solution2));
    // Also verify that using a different known solution doesn't work
    cache.register_captcha(id2, solution2);
    assert!(!cache.validate_captcha(id2, solution1));
    // And this also drops the captcha out
    assert!(!cache.validate_captcha(id2, solution2));
    // An unknown id should always yield a false
    assert!(!cache.validate_captcha(CaptchaId::random(), "123"));
    // Verify that we can delete again
    cache.register_captcha(id1, solution1);
    cache.register_captcha(id2, solution2);
}

#[test]
fn a_waiting_captcha_shows_its_solution() {
    let mut cache = Cache::default();
    let id = CaptchaId([7; 16]);
    assert_eq!(cache.get_solution(id), None);
    cache.register_captcha(id, "abcde");
    assert_eq!(cache.get_solution(id), Some("abcde".to_string()));
    assert_eq!(cache.get_solution(CaptchaId([8; 16])), None);
    // A second registration replaces the first.
    cache.register_captcha(id, "fghij");
    assert_eq!(cache.get_solution(id), Some("fghij".to_string()));
    assert!(!cache.validate_captcha(id, "abcde"));
    assert_eq!(cache.get_solution(id), None);
    assert_ne!(CaptchaId::random(), CaptchaId::random());
}

#[test]
fn a_fresh_captcha_identifier_is_a_version_4_uuid() {
    for _ in 0..64 {
        let id = CaptchaId::random();
        assert_eq!(id.0[6] >> 4, 4);
        assert_eq!(id.0[8] >> 6, 2);
    }
}

#[test]
fn a_user_name_is_given_once() {
    let mut db = store();
    let first = db.users.register("someone", "pw1").unwrap();
    assert!(matches!(
        db.users.register("someone", "pw2"),
        Err(WikiError::UserAlreadyExists(name)) if name == "someone"
    ));
    assert_eq!(db.users.id_by_name("someone").unwrap(), Some(first));
    // The first password still opens a session, the second does not.
    assert!(db.users.try_login(first, "pw1").unwrap().is_some());
    assert!(db.users.try_login(first, "pw2").unwrap().is_none());
}

#[test]
fn user_identifiers_count_up_from_zero() {
    let mut db = store();
    assert_eq!(db.users.register_hashed("a", "hash a").unwrap(), UserId(Id(0)));
    assert_eq!(db.users.register_hashed("b", "hash b").unwrap(), UserId(Id(1)));
    assert_eq!(db.users.register_hashed("c", "hash c").unwrap(), UserId(Id(2)));
    assert_eq!(db.users.name_by_id(UserId(Id(1))).unwrap(), "b");
    assert_eq!(db.users.password_hash(UserId(Id(2))).unwrap(), "hash c");
    assert_eq!(db.users.id_by_name("c").unwrap(), Some(UserId(Id(2))));
    assert_eq!(db.users.id_by_name("d").unwrap(), None);
    assert!(!db.users.name_exists("d").unwrap());
}

#[test]
fn a_password_is_stored_as_its_argon2i_hash() {
    let mut db = store();
    let id = db.users.register_salted("someone", "hunter2", b"somesalt").unwrap();
    let hash = db.users.password_hash(id).unwrap();
    assert!(hash.starts_with("$argon2i$v=19$m=4096,t=3,p=1$c29tZXNhbHQ$"));
    assert!(!hash.contains("hunter2"));
    // The same password and salt give the same hash, another salt another.
    let mut other = store();
    let same = other.users.register_salted("x", "hunter2", b"somesalt").unwrap();
    assert_eq!(other.users.password_hash(same).unwrap(), hash);
    let salted = other.users.register_salted("y", "hunter2", b"othersalt").unwrap();
    assert_ne!(other.users.password_hash(salted).unwrap(), hash);
    assert!(db.users.try_login(id, "hunter2").unwrap().is_some());
    assert!(db.users.try_login(id, "hunter3").unwrap().is_none());
}

#[test]
fn a_fresh_salt_is_thirty_two_letters_and_digits() {
    let salt = random_salt();
    assert_eq!(salt.len(), 32);
    assert!(salt.iter().all(|byte| byte.is_ascii_alphanumeric()));
    assert_ne!(random_salt(), salt);
}

#[test]
fn a_salt_can_be_too_short_to_hash_with() {
    let mut db = store();
    assert!(matches!(
        db.users.register_salted("someone", "hunter2", b"short"),
        Err(WikiError::Argon2(_))
    ));
    assert!(!db.users.name_exists("someone").unwrap());
}

#[test]
fn a_stored_hash_that_is_none_cannot_be_checked() {
    let mut db = store();
    let id = db.users.register_hashed("someone", "not a hash").unwrap();
    assert!(matches!(db.users.try_login(id, "pw"), Err(WikiError::Argon2(_))));
}

#[test]
fn unknown_users() {
    let mut db = store();
    let stranger = UserId(Id(4));
    assert!(matches!(
        db.users.name_by_id(stranger),
        Err(WikiError::UserDataInconsistent(id)) if id == stranger
    ));
    assert!(matches!(
        db.users.try_login(stranger, "pw"),
        Err(WikiError::PasswordNotFound(id)) if id == stranger
    ));
    assert!(matches!(
        db.users.password_hash(stranger),
        Err(WikiError::PasswordNotFound(id)) if id == stranger
    ));
    assert!(!db.users.is_admin(stranger).unwrap());
}

#[test]
fn sessions_open_and_close() {
    let mut db = store();
    let id = db.users.register_hashed("someone", "hash").unwrap();
    let first = db.users.create_session(id).unwrap();
    let second = db.users.create_session(id).unwrap();
    assert_ne!(first, second);
    assert_eq!(db.users.get_session_user(first).unwrap(), Some(id));
    assert_eq!(db.users.get_session_user(second).unwrap(), Some(id));
    db.users.destroy_session(first).unwrap();
    assert_eq!(db.users.get_session_user(first).unwrap(), None);
    assert_eq!(db.users.get_session_user(second).unwrap(), Some(id));
    // Closing a session that is not open changes nothing.
    db.users.destroy_session(first).unwrap();
    assert_eq!(db.users.get_session_user(SessionId([0; 16])).unwrap(), None);
    // A session is opened only for a password that matched.
    assert!(db.users.open_session_if(id, false).unwrap().is_none());
    let opened = db.users.open_session_if(id, true).unwrap().unwrap();
    assert_eq!(opened.user_id, id);
    assert_eq!(db.users.get_session_user(opened.session_id).unwrap(), Some(id));
}

#[test]
fn a_session_travels_in_a_cookie() {
    assert_eq!(SessionId([0; 16]).to_cookie(), "AAAAAAAAAAAAAAAAAAAAAA==");
    assert_eq!(
        SessionId::from_cookie("AAAAAAAAAAAAAAAAAAAAAA=="),
        Some(SessionId([0; 16]))
    );
    let id =
        SessionId([1, 2, 3, 4, 5, 6, 7, 8, 9, 10, 11, 12, 13, 14, 15, 16]);
    assert_eq!(id.to_cookie(), "AQIDBAUGBwgJCgsMDQ4PEA==");
    assert_eq!(SessionId::from_cookie(&id.to_cookie()), Some(id));
    // Not base64, or not sixteen bytes.
    assert_eq!(SessionId::from_cookie("not base64!"), None);
    assert_eq!(SessionId::from_cookie("AAAA"), None);
    assert_eq!(SessionId::from_cookie(""), None);
    assert_eq!(SessionId::from_cookie("AAAAAAAAAAAAAAAAAAAAAAAA"), None);
    assert_eq!(session_of_bytes(&[9; 16]), Some(SessionId([9; 16])));
    assert_eq!(session_of_bytes(&[9; 15]), None);
    assert_eq!(session_of_bytes(&[9; 17]), None);
}

#[test]
fn administrators_are_made_and_unmade() {
    let mut db = store();
    let first = db.users.register_hashed("first", "hash").unwrap();
    let second = db.users.register_hashed("second", "hash").unwrap();
    assert!(db.users.is_admin(first).unwrap());
    assert!(!db.users.is_admin(second).unwrap());
    db.users.set_is_admin(second, true).unwrap();
    db.users.set_is_admin(first, false).unwrap();
    assert!(!db.users.is_admin(first).unwrap());
    assert!(db.users.is_admin(second).unwrap());
    assert_eq!(admin_key(UserId(Id(258))), vec![0, 0, 1, 2, b'a', b'd', b'm', b'i', b'n']);
}

#[test]
fn a_logged_user_has_name_and_rights() {
    let mut db = store();
    let first = db.users.register_hashed("first", "hash").unwrap();
    let second = db.users.register_hashed("second", "hash").unwrap();
    let session = UserSession { session_id: db.users.create_session(first).unwrap(), user_id: first };
    let user = db.users.logged_user(&session).unwrap();
    assert_eq!(user.id, first);
    assert_eq!(user.name, "first");
    assert!(user.is_admin());
    assert_eq!(LoggedAdmin::new(user).unwrap().0.name, "first");
    let session = UserSession { session_id: db.users.create_session(second).unwrap(), user_id: second };
    let user = db.users.logged_user(&session).unwrap();
    assert_eq!(user.name, "second");
    assert!(!user.is_admin());
    assert!(LoggedAdmin::new(user).is_none());
}

#[test]
fn registration_is_open_until_it_is_closed() {
    let mut db = store();
    assert!(db.enabled_registration().unwrap().is_some());
    // Asking for what holds already changes nothing.
    assert!(!db.apply_admin_settings(AdminSettings { registration_enabled: true }).unwrap());
    assert!(db.apply_admin_settings(AdminSettings { registration_enabled: false }).unwrap());
    assert!(!db.registration_enabled().unwrap());
    assert!(db.enabled_registration().unwrap().is_none());
    assert!(!db.apply_admin_settings(AdminSettings { registration_enabled: false }).unwrap());
    assert!(db.apply_admin_settings(AdminSettings { registration_enabled: true }).unwrap());
    assert!(db.registration_enabled().unwrap());
}

fn request(username: &str, password: &str, pwd_confirm: &str) -> RegisterRequest {
    RegisterRequest {
        username: username.to_string(),
        password: password.to_string(),
        pwd_confirm: pwd_confirm.to_string(),
        captcha_id: CaptchaId([0; 16]),
        captcha_solution: String::new(),
    }
}

#[test]
fn a_request_to_register_is_checked_point_by_point() {
    let fine = RegistrationCheck {
        pwds_dont_match: false,
        username_taken: false,
        no_username: false,
        failed_captcha: false,
    };
    let check = check_registration(&request("Someone", "pw", "pw"), false, true);
    assert_eq!(check, fine);
    assert!(!check.rejected());
    let check = check_registration(&request("Someone", "pw", "pw2"), false, true);
    assert_eq!(check, RegistrationCheck { pwds_dont_match: true, ..fine });
    assert!(check.rejected());
    let check = check_registration(&request("Someone", "", ""), false, true);
    assert_eq!(check, RegistrationCheck { pwds_dont_match: true, ..fine });
    let check = check_registration(&request("Someone", "pw", "pw"), true, true);
    assert_eq!(check, RegistrationCheck { username_taken: true, ..fine });
    let check = check_registration(&request("register", "pw", "pw"), false, true);
    assert_eq!(check, RegistrationCheck { username_taken: true, ..fine });
    let check = check_registration(&request("login", "pw", "pw"), false, true);
    assert_eq!(check, RegistrationCheck { username_taken: true, ..fine });
    let check = check_registration(&request("Login", "pw", "pw"), false, true);
    assert_eq!(check, fine);
    let check = check_registration(&request("", "pw", "pw"), false, true);
    assert_eq!(check, RegistrationCheck { no_username: true, ..fine });
    let check = check_registration(&request("Someone", "pw", "pw"), false, false);
    assert_eq!(check, RegistrationCheck { failed_captcha: true, ..fine });
    assert!(check.rejected());
    let check = check_registration(&request("", "", "x"), true, false);
    assert_eq!(
        check,
        RegistrationCheck {
            pwds_dont_match: true,
            username_taken: true,
            no_username: true,
            failed_captcha: true,
        }
    );
}

#[test]
fn an_edit_asks_for_a_title_only_where_it_differs() {
    let edit = |title: Option<&str>| AddRevRequest {
        title: title.map(|t| t.to_string()),
        content: "text".to_string(),
    };
    assert_eq!(edit(None).new_title("Main"), None);
    assert_eq!(edit(Some("Main")).new_title("Main"), None);
    assert_eq!(edit(Some("Other")).new_title("Main"), Some("Other"));
    assert_eq!(edit(Some("main")).new_title("Main"), Some("main"));
    assert_eq!(edit(Some("")).new_title("Main"), Some(""));
}

#[test]
fn the_default_path_leads_to_the_main_page() {
    let mut config = Config {
        site_name: "Wiki".to_string(),
        main_page: "Main".to_string(),
        default_path: String::new(),
    };
    config.resolve_default_path();
    assert_eq!(config.default_path, "/Main");
    assert_eq!(config.main_page, "Main");
    assert_eq!(config.site_name, "Wiki");
    let mut config = Config {
        site_name: "Wiki".to_string(),
        main_page: "Main".to_string(),
        default_path: "/Home".to_string(),
    };
    config.resolve_default_path();
    assert_eq!(config.default_path, "/Home");
}

#[test]
fn the_first_sentence_ends_at_the_first_mark() {
    assert_eq!(first_sentence("Hello world. More text."), "Hello world.");
    assert_eq!(first_sentence("No mark at all"), "No mark at all");
    assert_eq!(first_sentence("a, b, c! d"), "a, b, c!");
    assert_eq!(first_sentence(""), "");
    assert_eq!(first_sentence("?"), "?");
    assert_eq!(first_sentence("!rest"), "!");
    assert_eq!(first_sentence("héllo wörld? yes"), "héllo wörld?");
    assert_eq!(first_sentence("日本語。まだ続く: はい"), "日本語。まだ続く:");
    assert_eq!(first_sentence("only, commas, here"), "only, commas, here");
    assert_eq!(first_sentence("ends with mark;"), "ends with mark;");
}

#[test]
fn the_marks_that_end_a_sentence() {
    for byte in 0u8..=255 {
        let expected = (byte as char).is_ascii_punctuation() && byte != b',';
        assert_eq!(is_sentence_end(byte), expected);
    }
}
