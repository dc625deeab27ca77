use pugo::models::author::gravatar_url;
use pugo::models::Author;

#[test]
fn test_avatar_url() {
    let mut author = Author::default();
    assert_eq!(author.name, "author");

    author.avatar = String::from("avatar.png");
    assert_eq!(author.build_avatar_url(), "avatar.png");

    author.use_gravatar = true;
    assert_eq!(
        author.build_avatar_url(),
        "https://www.gravatar.com/avatar/5c1e6d6e64e12aca17657581a48005d1"
    );
}

#[test]
fn test_default_author() {
    let author = Author::default();
    assert_eq!(author.email, "author@example.com");
    assert_eq!(author.website, "https://pugo.io");
    assert_eq!(author.bio, "sample author of PuGo");
    assert_eq!(author.avatar, "/assets/avatar.png");
    assert!(!author.use_gravatar);
    let social = author.social.as_ref().unwrap();
    assert_eq!(social.len(), 1);
    assert_eq!(social.get("github").unwrap(), "https://github.com/fuxiaohei/pugo-rs");
    let named = Author::create_by_name("someone");
    assert_eq!(named.name, "someone");
    assert_eq!(named.email, "author@example.com");
    let copy = named.clone();
    assert_eq!(copy.name, "someone");
    assert_eq!(copy.social.unwrap().len(), 1);
}

#[test]
fn test_gravatar_url() {
    assert_eq!(gravatar_url("00ff"), "https://www.gravatar.com/avatar/00ff");
}

#[test]
fn test_gravatar_digest_depends_on_the_address() {
    let mut author = Author::default();
    author.use_gravatar = true;
    author.email = String::new();
    assert_eq!(
        author.build_avatar_url(),
        "https://www.gravatar.com/avatar/d41d8cd98f00b204e9800998ecf8427e"
    );
}
