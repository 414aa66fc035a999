//! Identifiers kept in search documents: event keys and avatar download URLs.
use crate::text::starts_with;
use vstd::prelude::*;
use vstd::string::*;
use vstd::utf8::encode_utf8;

verus! {

/// The sigil that opens every event identifier.
pub open spec fn event_sigil() -> Seq<char> {
    seq!['$']
}

/// An event identifier as the chat protocol writes it: `$` and a non-empty rest.
pub open spec fn is_event_id(s: Seq<char>) -> bool {
    s.len() > 1 && s[0] == '$'
}

/// The key of an event in a search index: its identifier without the sigil.
#[derive(Debug, Clone, PartialEq, Eq, PartialOrd, Ord, Hash)]
pub struct KeyEventId(pub String);

impl View for KeyEventId {
    type V = Seq<char>;

    open spec fn view(&self) -> Seq<char> {
        self.0@
    }
}

impl KeyEventId {
    /// The key of `event_id`; `None` when it does not start with the sigil.
    pub fn from_event_id(event_id: &str) -> (r: Option<KeyEventId>)
        ensures
            r is Some <==> event_id@.len() > 0 && event_id@[0] == '$',
            r matches Some(k) ==> event_id@ == event_sigil() + k@,
    {
        let n = event_id.unicode_len();
        if n == 0 || event_id.get_char(0) != '$' {
            return None;
        }
        let rest = event_id.substring_char(1, n);
        let key = KeyEventId(String::from_str(rest));
        assert(event_id@ =~= event_sigil() + key@);
        Some(key)
    }

    /// The event identifier that this key was taken from.
    pub fn event_id(&self) -> (r: String)
        ensures
            r@ == event_sigil() + self@,
    {
        let r = String::from_str("$").concat(self.0.as_str());
        proof {
            reveal_strlit("$");
            assert(r@ =~= event_sigil() + self@);
        }
        r
    }
}

/// A resolved HTTP(S) URL of a sender's avatar.
#[derive(Debug, Clone, PartialEq, Eq, PartialOrd, Ord, Hash)]
pub struct LuoxuAvatar(pub String);

impl View for LuoxuAvatar {
    type V = Seq<char>;

    open spec fn view(&self) -> Seq<char> {
        self.0@
    }
}

/// Why an avatar URL could not be made.
#[derive(Debug, Clone, Copy, PartialEq, Eq, Structural)]
pub enum AvatarError {
    /// The media reference is not a valid `mxc://<server>/<media>` URI.
    InvalidMediaUri,
    /// The homeserver URL and the download path do not make a URL.
    InvalidUrl,
}

/// The scheme of a media reference.
pub open spec fn mxc_scheme() -> Seq<char> {
    seq!['m', 'x', 'c', ':', '/', '/']
}

/// The path under which a homeserver serves a media item.
pub open spec fn download_path_prefix() -> Seq<char> {
    "/_matrix/media/r0/download/"@
}

/// The download path of media `media` stored on `server`.
pub open spec fn download_path(server: Seq<char>, media: Seq<char>) -> Seq<char> {
    download_path_prefix() + server + seq!['/'] + media
}

/// What ruma makes of media reference `uri`: its server name and media
/// identifier, or `None` when it is not a valid `mxc://` URI.
pub uninterp spec fn mxc_split(uri: Seq<char>) -> Option<(Seq<char>, Seq<char>)>;

/// What url makes of `path` resolved against the base URL `base`: the
/// serialized URL, or `None` when either does not parse.
pub uninterp spec fn join_outcome(base: Seq<char>, path: Seq<char>) -> Option<Seq<char>>;

/// A media reference whose first slash after the scheme sits at byte 255 or
/// earlier (or that has no slash there at all): ruma records that byte position
/// in a `u8`. A `/` byte never occurs inside a multi-byte character.
pub open spec fn media_uri_fits(uri: Seq<char>) -> bool {
    slash_in_time(encode_utf8(uri))
}

/// `b` is at most 256 bytes long, or holds a `/` at some position from 6 to 255.
pub open spec fn slash_in_time(b: Seq<u8>) -> bool {
    b.len() <= 256 || exists|q: int| 6 <= q < 256 && q < b.len() && b[q] == 0x2F
}

/// Whether the bytes `b` of a media reference meet `slash_in_time`.
fn check_slash_in_time(b: &[u8]) -> (r: bool)
    ensures
        r == slash_in_time(b@),
{
    if b.len() <= 256 {
        return true;
    }
    let mut q: usize = 6;
    while q < 256
        invariant
            6 <= q <= 256,
            b@.len() > 256,
            forall|j: int| 6 <= j < q ==> b@[j] != 0x2F,
        decreases 256 - q,
    {
        if b[q] == 0x2F {
            return true;
        }
        q = q + 1;
    }
    false
}

/// The download URL, on `homeserver`, of the media that `uri` refers to;
/// `None` when the reference's first slash comes too late or it is invalid, or
/// the URL cannot be made.
pub open spec fn avatar_outcome(uri: Seq<char>, homeserver: Seq<char>) -> Option<Seq<char>> {
    if media_uri_fits(uri) {
        match mxc_split(uri) {
            Some(p) => join_outcome(homeserver, download_path(p.0, p.1)),
            None => None,
        }
    } else {
        None
    }
}

/// Relies on ruma's `MxcUri::parts`: a valid URI is `mxc://`, the server name
/// up to the first slash, the slash, and the media identifier. ruma keeps the
/// byte position of that slash in a `u8`, so it must sit at byte 255 or earlier
/// (later, ruma panics or splits wrongly).
#[verifier::external_body]
fn mxc_parts(uri: &str) -> (r: Option<(String, String)>)
    requires
        media_uri_fits(uri@),
    ensures
        match r {
            Some(p) => mxc_split(uri@) == Some((p.0@, p.1@)),
            None => mxc_split(uri@) is None,
        },
        r matches Some(p) ==> uri@ == mxc_scheme() + p.0@ + seq!['/'] + p.1@ && !p.0@.contains(
            '/',
        ),
        !starts_with(uri@, mxc_scheme()) ==> r is None,
{
    let uri: &ruma::MxcUri = uri.into();
    match uri.parts() {
        Ok((server, media)) => Some((server.as_str().to_string(), media.to_string())),
        Err(_) => None,
    }
}

/// Relies on url's `Url::parse` of the base, `Url::join` of the path and the
/// URL's serialization; the outcome depends on the two strings alone.
#[verifier::external_body]
fn join_url(base: &str, path: &str) -> (r: Option<String>)
    ensures
        match r {
            Some(u) => join_outcome(base@, path@) == Some(u@),
            None => join_outcome(base@, path@) is None,
        },
{
    match url::Url::parse(base) {
        Ok(b) => match b.join(path) {
            Ok(u) => Some(u.to_string()),
            Err(_) => None,
        },
        Err(_) => None,
    }
}

/// The download path of media `media` stored on `server`.
pub fn avatar_download_path(server: &str, media: &str) -> (r: String)
    ensures
        r@ == download_path(server@, media@),
{
    let mut p = String::from_str("/_matrix/media/r0/download/");
    p.append(server);
    p.append("/");
    p.append(media);
    proof {
        reveal_strlit("/_matrix/media/r0/download/");
        reveal_strlit("/");
    }
    p
}

impl LuoxuAvatar {
    /// The download URL of the media `avatar_uri` (an `mxc://` URI) on `homeserver`.
    pub fn new(avatar_uri: &str, homeserver: &str) -> (r: Result<LuoxuAvatar, AvatarError>)
        ensures
            match r {
                Ok(a) => avatar_outcome(avatar_uri@, homeserver@) == Some(a@),
                Err(e) => avatar_outcome(avatar_uri@, homeserver@) is None && (e
                    == AvatarError::InvalidMediaUri <==> !media_uri_fits(avatar_uri@) || mxc_split(
                    avatar_uri@,
                ) is None),
            },
            !starts_with(avatar_uri@, mxc_scheme()) ==> r == Err::<LuoxuAvatar, AvatarError>(
                AvatarError::InvalidMediaUri,
            ),
    {
        if !check_slash_in_time(avatar_uri.as_bytes()) {
            return Err(AvatarError::InvalidMediaUri);
        }
        match mxc_parts(avatar_uri) {
            None => Err(AvatarError::InvalidMediaUri),
            Some((server, media)) => LuoxuAvatar::from_parts(server.as_str(), media.as_str(), homeserver),
        }
    }

    /// The download URL of media `media` stored on `server`, on `homeserver`.
    pub fn from_parts(server: &str, media: &str, homeserver: &str) -> (r: Result<LuoxuAvatar, AvatarError>)
        ensures
            match r {
                Ok(a) => join_outcome(homeserver@, download_path(server@, media@)) == Some(a@),
                Err(e) => e == AvatarError::InvalidUrl && join_outcome(
                    homeserver@,
                    download_path(server@, media@),
                ) is None,
            },
    {
        let path = avatar_download_path(server, media);
        match join_url(homeserver, path.as_str()) {
            Some(u) => Ok(LuoxuAvatar(u)),
            None => Err(AvatarError::InvalidUrl),
        }
    }

    /// The URL as a string.
    pub fn into_string(self) -> (r: String)
        ensures
            r@ == self@,
    {
        self.0
    }
}

} // verus!
