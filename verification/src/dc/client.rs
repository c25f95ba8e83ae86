//! Where Docker Copilot is, and how requests to it are signed.
use base64::engine::general_purpose::URL_SAFE_NO_PAD;
use base64::Engine;
use hmac::digest::InvalidLength;
use hmac::{Hmac, Mac};
use reqwest::Url;
use sha2::Sha256;
use vstd::prelude::*;
use vstd::utf8::encode_utf8;

use crate::clock::clock_reading;
use crate::codec::{json_written, render_json};
use crate::json::{Json, JsonObject, JsonView};
use crate::settings::{setting, text_setting};
use crate::text::{
    drop_leading, drop_trailing, opt_chars, same, trim, trim_end_matches, trim_start_matches,
    trimmed,
};

verus! {

/// The error of a key that a MAC cannot take.
#[verifier::external_type_specification]
#[verifier::external_body]
pub struct ExInvalidLength(InvalidLength);

/// What `Url::parse` reads in a text: the scheme and the normalised URL.
pub uninterp spec fn url_read(text: Seq<char>) -> Option<(Seq<char>, Seq<char>)>;

/// What `Url::join` makes of a normalised URL and a relative one.
pub uninterp spec fn url_joined(base: Seq<char>, relative: Seq<char>) -> Option<Seq<char>>;

/// What the URL-safe alphabet without padding of `base64` encodes bytes to.
pub uninterp spec fn base64_url(bytes: Seq<u8>) -> Seq<char>;

/// The HMAC-SHA256 tag of a message under a key.
pub uninterp spec fn hmac_sha256(key: Seq<u8>, message: Seq<u8>) -> Seq<u8>;

/// The scheme and the text of a URL.
pub open spec fn url_view(url: Option<(String, String)>) -> Option<(Seq<char>, Seq<char>)> {
    match url {
        Some((scheme, text)) => Some((scheme@, text@)),
        None => None,
    }
}

/// `Url::parse`: the scheme and the normalised form of the URL that `text`
/// writes, or nothing where it writes none. It depends on `text` alone.
#[verifier::external_body]
fn parse_url(text: &str) -> (r: Option<(String, String)>)
    ensures
        url_view(r) == url_read(text@),
{
    Url::parse(text).ok().map(|url| (url.scheme().to_owned(), String::from(url)))
}

/// `Url::join`, on the URL that `base` writes: the normalised form of the joined
/// URL, or nothing where there is none. It depends on the two texts alone.
#[verifier::external_body]
fn join_url(base: &str, relative: &str) -> (r: Option<String>)
    ensures
        opt_chars(r) == url_joined(base@, relative@),
{
    Url::parse(base).ok()?.join(relative).ok().map(String::from)
}

/// `Engine::encode` of `base64`'s `URL_SAFE_NO_PAD`: the encoded text, which
/// depends on `bytes` alone.
#[verifier::external_body]
fn encode_base64_url(bytes: &[u8]) -> (r: String)
    ensures
        r@ == base64_url(bytes@),
{
    URL_SAFE_NO_PAD.encode(bytes)
}

/// The bytes of a tag, where there is one.
pub open spec fn tag_view(r: Result<Vec<u8>, InvalidLength>) -> Option<Seq<u8>> {
    match r {
        Ok(tag) => Some(tag@),
        Err(_) => None,
    }
}

/// `Hmac::<Sha256>::new_from_slice`, `update` and `finalize`: the tag of
/// `message` under `key`, which depends on the two alone. A key of any length is
/// taken.
#[verifier::external_body]
fn sign(key: &[u8], message: &[u8]) -> (r: Result<Vec<u8>, InvalidLength>)
    ensures
        tag_view(r) == Some(hmac_sha256(key@, message@)),
{
    let mut mac = <Hmac<Sha256> as Mac>::new_from_slice(key)?;
    mac.update(message);
    Ok(mac.finalize().into_bytes().to_vec())
}

/// A Docker Copilot service, with the key that signs requests to it.
pub struct DockerCopilot {
    pub host: String,
    pub secret_key: String,
}

#[verifier::ext_equal]
pub struct ServiceView {
    pub host: Seq<char>,
    pub secret_key: Seq<char>,
}

impl View for DockerCopilot {
    type V = ServiceView;

    open spec fn view(&self) -> ServiceView {
        ServiceView { host: self.host@, secret_key: self.secret_key@ }
    }
}

/// The service, or why the settings name none.
pub open spec fn service_view(r: Result<DockerCopilot, String>) -> Result<ServiceView, Seq<char>> {
    match r {
        Ok(service) => Ok(service@),
        Err(error) => Err(error@),
    }
}

/// The address in the settings: without surrounding white space and without
/// slashes at its end.
pub open spec fn address_in(settings: Map<Seq<char>, JsonView>) -> Seq<char> {
    drop_trailing(trimmed(text_setting(settings, "host"@, Seq::empty())), |c: char| c == '/')
}

/// The key in the settings, without surrounding white space.
pub open spec fn key_in(settings: Map<Seq<char>, JsonView>) -> Seq<char> {
    trimmed(text_setting(settings, "secret_key"@, Seq::empty()))
}

/// The service with an address that was read as `url` and with the key `key`, or
/// why there is none.
pub open spec fn service_at(url: Option<(Seq<char>, Seq<char>)>, key: Seq<char>) -> Result<
    ServiceView,
    Seq<char>,
> {
    match url {
        None => Err("Docker Copilot 地址不是有效 URL"@),
        Some((scheme, text)) => if scheme != "http"@ && scheme != "https"@ {
            Err("Docker Copilot 地址必须使用 http 或 https"@)
        } else if key.len() == 0 {
            Err("请先配置 Docker Copilot Secret Key"@)
        } else {
            Ok(ServiceView { host: text, secret_key: key })
        },
    }
}

/// The service that the settings name, or why they name none.
pub open spec fn service_in(settings: Map<Seq<char>, JsonView>) -> Result<ServiceView, Seq<char>> {
    if address_in(settings).len() == 0 {
        Err("请先配置 Docker Copilot 地址"@)
    } else {
        service_at(url_read(address_in(settings) + "/"@), key_in(settings))
    }
}

/// The address of a request, or why there is none.
pub open spec fn endpoint_view(joined: Option<Seq<char>>) -> Result<Seq<char>, Seq<char>> {
    match joined {
        Some(url) => Ok(url),
        None => Err("无法构造 Docker Copilot 请求地址"@),
    }
}

/// The address of the request to `path` at `host`, or why there is none.
pub open spec fn endpoint_at(host: Seq<char>, path: Seq<char>) -> Result<Seq<char>, Seq<char>> {
    endpoint_view(url_joined(host, drop_leading(path, |c: char| c == '/')))
}

/// The characters of a text or of an error.
pub open spec fn text_result(r: Result<String, String>) -> Result<Seq<char>, Seq<char>> {
    match r {
        Ok(text) => Ok(text@),
        Err(error) => Err(error@),
    }
}

/// The characters of a text or of an error, where there is one of them.
pub open spec fn opt_text_result(r: Option<Result<String, String>>) -> Option<
    Result<Seq<char>, Seq<char>>,
> {
    match r {
        Some(r) => Some(text_result(r)),
        None => None,
    }
}

/// How long a token holds: four weeks.
pub const TOKEN_SECONDS: u64 = 2_419_200;

/// The claims of a token that is issued at `now`.
pub open spec fn claims_at(now: int) -> JsonView {
    JsonView::Object(
        map!["iat"@ => JsonView::Int(now), "exp"@ => JsonView::Int(now + TOKEN_SECONDS)],
    )
}

/// The part of a token that is signed: its header and its claims.
pub open spec fn signed_part(now: int) -> Seq<char> {
    base64_url(encode_utf8("{\"alg\":\"HS256\",\"typ\":\"JWT\"}"@)) + "."@ + base64_url(
        encode_utf8(json_written(claims_at(now))),
    )
}

/// The authorisation that the key gives at `now`.
pub open spec fn authorisation(key: Seq<char>, now: int) -> Seq<char> {
    authorised(
        signed_part(now),
        base64_url(hmac_sha256(encode_utf8(key), encode_utf8(signed_part(now)))),
    )
}

/// The authorisation with a signed part and its signature.
pub open spec fn authorised(signed: Seq<char>, signature: Seq<char>) -> Seq<char> {
    "Bearer "@ + signed + "."@ + signature
}

/// The authorisation of a request at a clock reading: an error without one, and
/// nothing where the end of the token cannot be told.
pub open spec fn bearer_read_at(secret_key: Seq<char>, now: Option<u64>) -> Option<
    Result<Seq<char>, Seq<char>>,
> {
    match now {
        Some(seconds) => if seconds + TOKEN_SECONDS > u64::MAX {
            None
        } else {
            Some(Ok(authorisation(secret_key, seconds as int)))
        },
        None => Some(Err("系统时间早于 Unix 纪元"@)),
    }
}

/// The authorisation with a signed part and its signature.
pub fn authorise(signed: &str, signature: &str) -> (r: String)
    ensures
        r@ == authorised(signed@, signature@),
{
    "Bearer ".to_owned().concat(signed).concat(".").concat(signature)
}

impl DockerCopilot {
    /// The service with an address that was read as `url`.
    pub fn at(url: Option<(String, String)>, secret_key: &str) -> (r: Result<DockerCopilot, String>)
        ensures
            service_view(r) == service_at(url_view(url), secret_key@),
    {
        match url {
            None => Err("Docker Copilot 地址不是有效 URL".to_owned()),
            Some((scheme, text)) => {
                if !same(scheme.as_str(), "http") && !same(scheme.as_str(), "https") {
                    return Err("Docker Copilot 地址必须使用 http 或 https".to_owned());
                }
                if secret_key.is_empty() {
                    return Err("请先配置 Docker Copilot Secret Key".to_owned());
                }
                Ok(DockerCopilot { host: text, secret_key: secret_key.to_owned() })
            },
        }
    }

    /// The service that the settings name.
    pub fn new(settings: &JsonObject) -> (r: Result<DockerCopilot, String>)
        ensures
            service_view(r) == service_in(settings.members()),
    {
        let address = trim_end_matches(trim(setting(settings, "host")), '/');
        if address.is_empty() {
            return Err("请先配置 Docker Copilot 地址".to_owned());
        }
        let url = parse_url(address.to_owned().concat("/").as_str());
        Self::at(url, trim(setting(settings, "secret_key")))
    }

    /// The address of the request to `path`.
    pub fn endpoint(&self, path: &str) -> (r: Result<String, String>)
        ensures
            text_result(r) == endpoint_at(self@.host, path@),
    {
        accept_endpoint(join_url(self.host.as_str(), trim_start_matches(path, '/')))
    }

    /// The authorisation of a request now: an error where the clock stands before
    /// the Unix epoch, and nothing where it stands so late that no end of the
    /// token can be told.
    pub fn bearer(&self) -> (r: Option<Result<String, String>>)
        ensures
            r matches Some(Ok(text)) ==> exists|now: u64|
                text@ == #[trigger] authorisation(self@.secret_key, now as int),
            r matches Some(Err(error)) ==> error@ == "系统时间早于 Unix 纪元"@,
    {
        self.bearer_for(clock_reading())
    }

    /// The authorisation of a request at the clock reading `now`: an error where
    /// there is no reading, and nothing exactly where the reading is so late that
    /// the end of the token cannot be told.
    pub fn bearer_for(&self, now: Option<u64>) -> (r: Option<Result<String, String>>)
        ensures
            opt_text_result(r) == bearer_read_at(self@.secret_key, now),
    {
        match now {
            Some(seconds) => if seconds <= 0xffff_ffff_ffff_ffff - TOKEN_SECONDS {
                Some(self.bearer_at(Some(seconds)))
            } else {
                None
            },
            None => Some(self.bearer_at(None)),
        }
    }

    /// The authorisation of a request at the clock reading `now`; an error where
    /// there is no reading.
    pub fn bearer_at(&self, now: Option<u64>) -> (r: Result<String, String>)
        requires
            now matches Some(seconds) ==> seconds + TOKEN_SECONDS <= u64::MAX,
        ensures
            text_result(r) == match now {
                Some(seconds) => Ok(authorisation(self@.secret_key, seconds as int)),
                None => Err("系统时间早于 Unix 纪元"@),
            },
    {
        let now: u64 = match now {
            Some(seconds) => seconds,
            None => {
                return Err("系统时间早于 Unix 纪元".to_owned());
            },
        };
        let header = encode_base64_url("{\"alg\":\"HS256\",\"typ\":\"JWT\"}".as_bytes());
        let claims = Json::Object(
            JsonObject::new().with("iat", Json::Unsigned(now)).with(
                "exp",
                Json::Unsigned(now + TOKEN_SECONDS),
            ),
        );
        let claims = encode_base64_url(render_json(&claims).as_str().as_bytes());
        let signed = header.concat(".").concat(claims.as_str());
        match sign(self.secret_key.as_str().as_bytes(), signed.as_str().as_bytes()) {
            Ok(tag) => Ok(
                authorise(signed.as_str(), encode_base64_url(tag.as_slice()).as_str()),
            ),
            Err(_) => Err("无法创建 JWT 签名".to_owned()),
        }
    }
}

/// The address of a request, or why there is none.
pub fn accept_endpoint(joined: Option<String>) -> (r: Result<String, String>)
    ensures
        text_result(r) == endpoint_view(opt_chars(joined)),
{
    match joined {
        Some(url) => Ok(url),
        None => Err("无法构造 Docker Copilot 请求地址".to_owned()),
    }
}

} // verus!
