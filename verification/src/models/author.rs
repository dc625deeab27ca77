//! Authors of documents.

use crate::utils::strmap::StrMap;
use md5::{Digest, Md5};
use vstd::prelude::*;
use vstd::utf8::encode_utf8;

verus! {

/// An author, as the site's configuration describes one.
#[derive(Debug)]
pub struct Author {
    pub name: String,
    pub email: String,
    pub website: String,
    pub bio: String,
    pub avatar: String,
    pub use_gravatar: bool,
    pub social: Option<StrMap<String>>,
}

/// The mathematical content of an `Author`.
pub struct AuthorModel {
    pub name: Seq<char>,
    pub email: Seq<char>,
    pub website: Seq<char>,
    pub bio: Seq<char>,
    pub avatar: Seq<char>,
    pub use_gravatar: bool,
    pub social: Option<Seq<(Seq<char>, Seq<char>)>>,
}

impl DeepView for Author {
    type V = AuthorModel;

    open spec fn deep_view(&self) -> AuthorModel {
        AuthorModel {
            name: self.name@,
            email: self.email@,
            website: self.website@,
            bio: self.bio@,
            avatar: self.avatar@,
            use_gravatar: self.use_gravatar,
            social: match self.social {
                Some(m) => Some(m.entries()),
                None => None,
            },
        }
    }
}

impl View for Author {
    type V = AuthorModel;

    open spec fn view(&self) -> AuthorModel {
        self.deep_view()
    }
}

impl Clone for Author {
    fn clone(&self) -> (r: Self)
        ensures
            r@ == self@,
    {
        Author {
            name: self.name.clone(),
            email: self.email.clone(),
            website: self.website.clone(),
            bio: self.bio.clone(),
            avatar: self.avatar.clone(),
            use_gravatar: self.use_gravatar,
            social: match &self.social {
                Some(m) => Some(m.clone()),
                None => None,
            },
        }
    }
}

/// The author that a site has before any is configured.
pub open spec fn default_author() -> AuthorModel {
    AuthorModel {
        name: "author"@,
        email: "author@example.com"@,
        website: "https://pugo.io"@,
        bio: "sample author of PuGo"@,
        avatar: "/assets/avatar.png"@,
        use_gravatar: false,
        social: Some(seq![("github"@, "https://github.com/fuxiaohei/pugo-rs"@)]),
    }
}

/// The default author under another name.
pub open spec fn author_named(name: Seq<char>) -> AuthorModel {
    AuthorModel { name, ..default_author() }
}

/// The lower-case hexadecimal digit of `n`.
pub open spec fn hex_digit(n: int) -> char {
    if n == 0 {
        '0'
    } else if n == 1 {
        '1'
    } else if n == 2 {
        '2'
    } else if n == 3 {
        '3'
    } else if n == 4 {
        '4'
    } else if n == 5 {
        '5'
    } else if n == 6 {
        '6'
    } else if n == 7 {
        '7'
    } else if n == 8 {
        '8'
    } else if n == 9 {
        '9'
    } else if n == 10 {
        'a'
    } else if n == 11 {
        'b'
    } else if n == 12 {
        'c'
    } else if n == 13 {
        'd'
    } else if n == 14 {
        'e'
    } else {
        'f'
    }
}

/// The bytes written in lower-case hexadecimal, two digits a byte.
pub open spec fn lower_hex(bytes: Seq<u8>) -> Seq<char>
    decreases bytes.len(),
{
    if bytes.len() == 0 {
        Seq::empty()
    } else {
        lower_hex(bytes.drop_last()) + seq![
            hex_digit(bytes.last() as int / 16),
            hex_digit(bytes.last() as int % 16),
        ]
    }
}

/// The MD5 digest of `data`.
pub uninterp spec fn md5_digest(data: Seq<u8>) -> Seq<u8>;

/// `Md5::digest` of the crate `md-5` hashes the bytes in one call. The result
/// depends on the bytes alone and is 16 bytes long.
#[verifier::external_body]
fn md5_of(data: &[u8]) -> (digest: Vec<u8>)
    ensures
        digest@ == md5_digest(data@),
        digest@.len() == 16,
{
    Md5::digest(data).to_vec()
}

/// `base16ct::lower::encode_string` writes each byte as two lower-case
/// hexadecimal digits, the high half first. It panics on an input of more
/// than half the largest length.
#[verifier::external_body]
fn hex_string(bytes: &[u8]) -> (hex: String)
    requires
        bytes@.len() <= usize::MAX / 2,
    ensures
        hex@ == lower_hex(bytes@),
{
    base16ct::lower::encode_string(bytes)
}

/// The address of the Gravatar image with the given digest.
pub open spec fn gravatar_address(hex: Seq<char>) -> Seq<char> {
    "https://www.gravatar.com/avatar/"@ + hex
}

/// The address of the Gravatar image with the given digest.
pub fn gravatar_url(hex: &str) -> (url: String)
    ensures
        url@ == gravatar_address(hex@),
{
    let mut url = String::from_str("https://www.gravatar.com/avatar/");
    url.append(hex);
    url
}

/// The address of an author's picture: the Gravatar of the e-mail address
/// where the author asks for it, else the configured picture.
pub open spec fn avatar_url(a: AuthorModel) -> Seq<char> {
    if a.use_gravatar {
        gravatar_address(lower_hex(md5_digest(encode_utf8(a.email))))
    } else {
        a.avatar
    }
}

impl Author {
    /// The default author under the name `name`.
    pub fn create_by_name(name: &str) -> (a: Author)
        ensures
            a@ == author_named(name@),
    {
        let d = Author::default();
        Author {
            name: String::from_str(name),
            email: d.email,
            website: d.website,
            bio: d.bio,
            avatar: d.avatar,
            use_gravatar: d.use_gravatar,
            social: d.social,
        }
    }

    /// The author that a site has before any is configured.
    pub fn default() -> (a: Self)
        ensures
            a@ == default_author(),
    {
        let mut social: StrMap<String> = StrMap::new();
        social.insert(
            String::from_str("github"),
            String::from_str("https://github.com/fuxiaohei/pugo-rs"),
        );
        assert(social.entries() =~= seq![("github"@, "https://github.com/fuxiaohei/pugo-rs"@)]);
        Author {
            name: String::from_str("author"),
            email: String::from_str("author@example.com"),
            website: String::from_str("https://pugo.io"),
            bio: String::from_str("sample author of PuGo"),
            avatar: String::from_str("/assets/avatar.png"),
            use_gravatar: false,
            social: Some(social),
        }
    }

    /// The address of the author's picture.
    pub fn build_avatar_url(&self) -> (url: String)
        ensures
            url@ == avatar_url(self@),
    {
        if self.use_gravatar {
            let digest = md5_of(self.email.as_str().as_bytes());
            let hex = hex_string(digest.as_slice());
            gravatar_url(hex.as_str())
        } else {
            self.avatar.clone()
        }
    }
}

} // verus!
