use vstd::prelude::*;

use crate::json::{
    find_key, has_key, lemma_members_at, lemma_members_push, members, members_wf, Json, JsonValue,
};
use crate::text::{decimal, decimal_text, same_text};

verus! {

/// The hash functions a one-time password can be computed with.
#[derive(Clone, Copy, Debug, PartialEq, Eq, Structural)]
pub enum HashFunction {
    Sha1,
    Sha256,
    Sha512,
}

/// How a stored secret is written.
#[derive(Clone, Copy, Debug, PartialEq, Eq, Structural)]
pub enum Encoding {
    Base32,
    Hex,
    Ascii,
}

/// Why a settings value could not be built.
#[derive(Clone, Copy, Debug, PartialEq, Eq, Structural)]
pub enum SettingsError {
    /// No stored object was given.
    NoData,
    /// No secret was given.
    MissingSecret,
    /// A field holds a value of the wrong JSON type, or a number out of range.
    MismatchedType,
    /// A hash or encoding name is not one of the known ones.
    UnknownValue,
}

pub const DEFAULT_WINDOW: u32 = 30;

pub open spec fn hash_name(h: HashFunction) -> Seq<char> {
    match h {
        HashFunction::Sha1 => "sha1"@,
        HashFunction::Sha256 => "sha256"@,
        HashFunction::Sha512 => "sha512"@,
    }
}

pub open spec fn encoding_name(e: Encoding) -> Seq<char> {
    match e {
        Encoding::Base32 => "base32"@,
        Encoding::Hex => "hex"@,
        Encoding::Ascii => "ascii"@,
    }
}

pub open spec fn hash_named(s: Seq<char>) -> Option<HashFunction> {
    if s == "sha1"@ {
        Some(HashFunction::Sha1)
    } else if s == "sha256"@ {
        Some(HashFunction::Sha256)
    } else if s == "sha512"@ {
        Some(HashFunction::Sha512)
    } else {
        None
    }
}

pub open spec fn encoding_named(s: Seq<char>) -> Option<Encoding> {
    if s == "base32"@ {
        Some(Encoding::Base32)
    } else if s == "hex"@ {
        Some(Encoding::Hex)
    } else if s == "ascii"@ {
        Some(Encoding::Ascii)
    } else {
        None
    }
}

/// The hash function with the given name.
pub fn hash_from_name(s: &str) -> (r: Option<HashFunction>)
    ensures
        r == hash_named(s@),
{
    if same_text(s, "sha1") {
        Some(HashFunction::Sha1)
    } else if same_text(s, "sha256") {
        Some(HashFunction::Sha256)
    } else if same_text(s, "sha512") {
        Some(HashFunction::Sha512)
    } else {
        None
    }
}

/// The encoding with the given name.
pub fn encoding_from_name(s: &str) -> (r: Option<Encoding>)
    ensures
        r == encoding_named(s@),
{
    if same_text(s, "base32") {
        Some(Encoding::Base32)
    } else if same_text(s, "hex") {
        Some(Encoding::Hex)
    } else if same_text(s, "ascii") {
        Some(Encoding::Ascii)
    } else {
        None
    }
}

/// The name of a hash function.
pub fn hash_to_name(h: HashFunction) -> (r: &'static str)
    ensures
        r@ == hash_name(h),
{
    match h {
        HashFunction::Sha1 => "sha1",
        HashFunction::Sha256 => "sha256",
        HashFunction::Sha512 => "sha512",
    }
}

/// The name of an encoding.
pub fn encoding_to_name(e: Encoding) -> (r: &'static str)
    ensures
        r@ == encoding_name(e),
{
    match e {
        Encoding::Base32 => "base32",
        Encoding::Hex => "hex",
        Encoding::Ascii => "ascii",
    }
}

/// Each name maps back to the value it names.
pub proof fn lemma_names_round_trip(h: HashFunction, e: Encoding)
    ensures
        hash_named(hash_name(h)) == Some(h),
        encoding_named(encoding_name(e)) == Some(e),
{
    reveal_strlit("sha1");
    reveal_strlit("sha256");
    reveal_strlit("sha512");
    reveal_strlit("base32");
    reveal_strlit("hex");
    reveal_strlit("ascii");
    assert("sha1"@.len() != "sha256"@.len());
    assert("sha1"@.len() != "sha512"@.len());
    assert("sha256"@[3] != "sha512"@[3]);
    assert("base32"@.len() != "hex"@.len());
    assert("base32"@.len() != "ascii"@.len());
    assert("hex"@.len() != "ascii"@.len());
}

/// One application's one-time-password settings, filled in field by field.
pub struct TwofaSettings {
    pub secret: Option<String>,
    pub window: Option<u32>,
    pub hash: Option<HashFunction>,
    pub encoding: Option<Encoding>,
}

/// What a `TwofaSettings` holds.
pub struct SettingsModel {
    pub secret: Option<Seq<char>>,
    pub window: Option<u32>,
    pub hash: Option<HashFunction>,
    pub encoding: Option<Encoding>,
}

impl SettingsModel {
    /// Every field is set.
    pub open spec fn complete(self) -> bool {
        self.secret is Some && self.window is Some && self.hash is Some && self.encoding is Some
    }

    /// Every field is set and the secret is not empty.
    pub open spec fn valid(self) -> bool {
        self.complete() && self.secret->0.len() > 0
    }
}

/// The complete settings with these values.
pub open spec fn full_settings(
    secret: Seq<char>,
    window: u32,
    hash: HashFunction,
    encoding: Encoding,
) -> SettingsModel {
    SettingsModel {
        secret: Some(secret),
        window: Some(window),
        hash: Some(hash),
        encoding: Some(encoding),
    }
}

impl TwofaSettings {
    pub open spec fn view(&self) -> SettingsModel {
        SettingsModel {
            secret: match self.secret {
                Some(s) => Some(s@),
                None => None,
            },
            window: self.window,
            hash: self.hash,
            encoding: self.encoding,
        }
    }

    /// Settings with no field set.
    pub fn new() -> (r: Self)
        ensures
            r@ == (SettingsModel { secret: None, window: None, hash: None, encoding: None }),
    {
        TwofaSettings { secret: None, window: None, hash: None, encoding: None }
    }

    pub fn set_secret(&mut self, secret: String) -> (r: &mut Self)
        ensures
            (*r)@ == (SettingsModel { secret: Some(secret@), ..old(self)@ }),
            *final(self) == *final(r),
    {
        self.secret = Some(secret);
        self
    }

    /// Sets the time step; none given means the default of 30 seconds.
    pub fn set_window(&mut self, window: Option<u32>) -> (r: &mut Self)
        ensures
            *final(self) == *final(r),
            (*r)@ == (SettingsModel {
                window: Some(
                    match window {
                        Some(w) => w,
                        None => DEFAULT_WINDOW,
                    },
                ),
                ..old(self)@
            }),
    {
        match window {
            Some(w) => self.window = Some(w),
            None => self.window = Some(DEFAULT_WINDOW),
        }
        self
    }

    /// Sets the hash function; none given means SHA-512.
    pub fn set_hash(&mut self, hash: Option<HashFunction>) -> (r: &mut Self)
        ensures
            *final(self) == *final(r),
            (*r)@ == (SettingsModel {
                hash: Some(
                    match hash {
                        Some(h) => h,
                        None => HashFunction::Sha512,
                    },
                ),
                ..old(self)@
            }),
    {
        match hash {
            Some(h) => self.hash = Some(h),
            None => self.hash = Some(HashFunction::Sha512),
        }
        self
    }

    /// Sets the encoding of the secret; none given means base32.
    pub fn set_encoding(&mut self, encoding: Option<Encoding>) -> (r: &mut Self)
        ensures
            *final(self) == *final(r),
            (*r)@ == (SettingsModel {
                encoding: Some(
                    match encoding {
                        Some(e) => e,
                        None => Encoding::Base32,
                    },
                ),
                ..old(self)@
            }),
    {
        match encoding {
            Some(e) => self.encoding = Some(e),
            None => self.encoding = Some(Encoding::Base32),
        }
        self
    }
}

/// The settings that user input describes: a non-empty secret is required, a window must be
/// positive and fit in 32 bits, names must be known, and what is left out takes its default.
pub open spec fn settings_from_input(
    secret: Option<Seq<char>>,
    window: Option<u64>,
    hash: Option<Seq<char>>,
    encoding: Option<Seq<char>>,
) -> Result<SettingsModel, SettingsError> {
    if secret is None || secret->0.len() == 0 {
        Err(SettingsError::MissingSecret)
    } else if window is Some && (window->0 == 0 || window->0 > u32::MAX) {
        Err(SettingsError::MismatchedType)
    } else if hash is Some && hash_named(hash->0) is None {
        Err(SettingsError::UnknownValue)
    } else if encoding is Some && encoding_named(encoding->0) is None {
        Err(SettingsError::UnknownValue)
    } else {
        Ok(
            full_settings(
                secret->0,
                match window {
                    Some(w) => w as u32,
                    None => DEFAULT_WINDOW,
                },
                match hash {
                    Some(h) => hash_named(h)->0,
                    None => HashFunction::Sha512,
                },
                match encoding {
                    Some(e) => encoding_named(e)->0,
                    None => Encoding::Base32,
                },
            ),
        )
    }
}

pub open spec fn opt_view(s: Option<&str>) -> Option<Seq<char>> {
    match s {
        Some(t) => Some(t@),
        None => None,
    }
}

pub open spec fn opt_string_view(s: Option<String>) -> Option<Seq<char>> {
    match s {
        Some(t) => Some(t@),
        None => None,
    }
}

/// What a settings result holds.
pub open spec fn settings_result(r: Result<TwofaSettings, SettingsError>) -> Result<
    SettingsModel,
    SettingsError,
> {
    match r {
        Ok(t) => Ok(t@),
        Err(e) => Err(e),
    }
}

/// Builds complete settings from what a user gave.
pub fn create_twofa_settings_with_input(
    secret: Option<String>,
    window: Option<u64>,
    hash: Option<&str>,
    encoding: Option<&str>,
) -> (r: Result<TwofaSettings, SettingsError>)
    ensures
        settings_result(r) == settings_from_input(
            opt_string_view(secret),
            window,
            opt_view(hash),
            opt_view(encoding),
        ),
{
    let mut settings = TwofaSettings::new();
    match secret {
        Some(s) => {
            if s.as_str().unicode_len() == 0 {
                return Err(SettingsError::MissingSecret);
            }
            settings.set_secret(s);
        },
        None => return Err(SettingsError::MissingSecret),
    }
    match window {
        Some(w) => {
            if w == 0 || w > u32::MAX as u64 {
                return Err(SettingsError::MismatchedType);
            }
            settings.set_window(Some(w as u32));
        },
        None => {
            settings.set_window(None);
        },
    }
    match hash {
        Some(name) => match hash_from_name(name) {
            Some(h) => {
                settings.set_hash(Some(h));
            },
            None => return Err(SettingsError::UnknownValue),
        },
        None => {
            settings.set_hash(None);
        },
    }
    match encoding {
        Some(name) => match encoding_from_name(name) {
            Some(e) => {
                settings.set_encoding(Some(e));
            },
            None => return Err(SettingsError::UnknownValue),
        },
        None => {
            settings.set_encoding(None);
        },
    }
    Ok(settings)
}

/// The encoding a stored member names, base32 where there is none.
pub open spec fn stored_encoding(m: Map<Seq<char>, Json>) -> Result<Encoding, SettingsError> {
    if !m.contains_key("encoding"@) {
        Ok(Encoding::Base32)
    } else {
        match m["encoding"@] {
            Json::Str(t) => match encoding_named(t) {
                Some(e) => Ok(e),
                None => Err(SettingsError::UnknownValue),
            },
            _ => Err(SettingsError::UnknownValue),
        }
    }
}

/// The hash function a stored member names, SHA-512 where there is none.
pub open spec fn stored_hash(m: Map<Seq<char>, Json>) -> Result<HashFunction, SettingsError> {
    if !m.contains_key("hash"@) {
        Ok(HashFunction::Sha512)
    } else {
        match m["hash"@] {
            Json::Str(t) => match hash_named(t) {
                Some(h) => Ok(h),
                None => Err(SettingsError::UnknownValue),
            },
            _ => Err(SettingsError::UnknownValue),
        }
    }
}

/// The stored secret; it must be a non-empty string.
pub open spec fn stored_secret(m: Map<Seq<char>, Json>) -> Result<Seq<char>, SettingsError> {
    if !m.contains_key("secret"@) {
        Err(SettingsError::MissingSecret)
    } else {
        match m["secret"@] {
            Json::Str(t) => if t.len() > 0 {
                Ok(t)
            } else {
                Err(SettingsError::MissingSecret)
            },
            _ => Err(SettingsError::MismatchedType),
        }
    }
}

/// The stored window, 30 where there is none; it must be an integer that fits in 32 bits.
pub open spec fn stored_window(m: Map<Seq<char>, Json>) -> Result<u32, SettingsError> {
    if !m.contains_key("window"@) {
        Ok(DEFAULT_WINDOW)
    } else {
        match m["window"@] {
            Json::Int(n) => if 0 <= n <= u32::MAX {
                Ok(n as u32)
            } else {
                Err(SettingsError::MismatchedType)
            },
            _ => Err(SettingsError::MismatchedType),
        }
    }
}

/// The settings a stored application object describes. Members are checked in the order
/// encoding, hash, secret, window, and a missing secret is reported after them; other
/// members are ignored.
pub open spec fn settings_from_members(m: Map<Seq<char>, Json>) -> Result<
    SettingsModel,
    SettingsError,
> {
    if stored_encoding(m) is Err {
        Err(stored_encoding(m)->Err_0)
    } else if stored_hash(m) is Err {
        Err(stored_hash(m)->Err_0)
    } else if stored_secret(m) == Err::<Seq<char>, SettingsError>(SettingsError::MismatchedType) {
        Err(SettingsError::MismatchedType)
    } else if stored_window(m) is Err {
        Err(stored_window(m)->Err_0)
    } else if stored_secret(m) is Err {
        Err(SettingsError::MissingSecret)
    } else {
        Ok(
            full_settings(
                stored_secret(m)->Ok_0,
                stored_window(m)->Ok_0,
                stored_hash(m)->Ok_0,
                stored_encoding(m)->Ok_0,
            ),
        )
    }
}

pub open spec fn settings_from_stored(data: Option<Map<Seq<char>, Json>>) -> Result<
    SettingsModel,
    SettingsError,
> {
    match data {
        Some(m) => settings_from_members(m),
        None => Err(SettingsError::NoData),
    }
}

pub open spec fn stored_view(data: Option<Vec<(String, JsonValue)>>) -> Option<
    Map<Seq<char>, Json>,
> {
    match data {
        Some(e) => Some(members(e@)),
        None => None,
    }
}

/// The stored members of complete settings.
pub open spec fn settings_members(s: SettingsModel) -> Map<Seq<char>, Json> {
    map![
        "encoding"@ => Json::Str(encoding_name(s.encoding->0)),
        "hash"@ => Json::Str(hash_name(s.hash->0)),
        "secret"@ => Json::Str(s.secret->0),
        "window"@ => Json::Int(s.window->0 as int),
    ]
}

/// The member of `e` under `key`, if there is one.
fn member<'a>(e: &'a Vec<(String, JsonValue)>, key: &str) -> (r: Option<&'a JsonValue>)
    requires
        members_wf(e@),
    ensures
        match r {
            Some(v) => members(e@).contains_key(key@) && members(e@)[key@] == v@,
            None => !members(e@).contains_key(key@),
        },
{
    match find_key(e, key) {
        Some(i) => {
            proof {
                lemma_members_at(e@, i as int);
            }
            Some(&e[i].1)
        },
        None => None,
    }
}

/// The names of the members a stored object may have.
pub open spec fn recognized(k: Seq<char>) -> bool {
    k == "encoding"@ || k == "hash"@ || k == "secret"@ || k == "window"@
}

/// Whether one of `r` is `k`.
pub open spec fn lists(r: Seq<String>, k: Seq<char>) -> bool {
    exists|i: int| 0 <= i < r.len() && #[trigger] r[i]@ == k
}

/// The keys of the members of a stored object that no setting reads.
pub fn unrecognized_members(e: &Vec<(String, JsonValue)>) -> (r: Vec<String>)
    requires
        members_wf(e@),
    ensures
        forall|k: Seq<char>|
            #[trigger] lists(r@, k) <==> (members(e@).contains_key(k) && !recognized(k)),
{
    let mut r: Vec<String> = Vec::new();
    let mut j: usize = 0;
    while j < e.len()
        invariant
            j <= e.len(),
            forall|k: Seq<char>|
                #[trigger] lists(r@, k) <==> (has_key(e@.take(j as int), k) && !recognized(k)),
        decreases e.len() - j,
    {
        let k = e[j].0.as_str();
        let known = same_text(k, "encoding") || same_text(k, "hash") || same_text(k, "secret")
            || same_text(k, "window");
        let ghost r0 = r@;
        if !known {
            r.push(e[j].0.clone());
        }
        proof {
            let kj = e@[j as int].0@;
            assert forall|q: Seq<char>|
                #[trigger] lists(r@, q) <==> (has_key(e@.take(j + 1), q) && !recognized(q)) by {
                if lists(r@, q) {
                    let i = choose|i: int| 0 <= i < r.len() && #[trigger] r@[i]@ == q;
                    if i < r0.len() {
                        assert(r0[i] == r@[i]);
                        assert(lists(r0, q));
                        let i2 = choose|i2: int|
                            0 <= i2 < j && (#[trigger] e@.take(j as int)[i2]).0@ == q;
                        assert(e@.take(j + 1)[i2] == e@.take(j as int)[i2]);
                    } else {
                        assert(e@.take(j + 1)[j as int].0@ == q);
                    }
                }
                if has_key(e@.take(j + 1), q) && !recognized(q) {
                    let i = choose|i: int| 0 <= i < j + 1 && (#[trigger] e@.take(j + 1)[i]).0@ == q;
                    if i < j {
                        assert(e@.take(j + 1)[i] == e@.take(j as int)[i]);
                        assert(lists(r0, q));
                        let i2 = choose|i2: int| 0 <= i2 < r0.len() && #[trigger] r0[i2]@ == q;
                        assert(r@[i2] == r0[i2]);
                    } else {
                        assert(r@[r.len() - 1]@ == q);
                    }
                }
            }
        }
        j = j + 1;
    }
    proof {
        assert(e@.take(e.len() as int) =~= e@);
    }
    r
}

/// Builds complete settings from an application's stored object.
pub fn create_twofa_settings(data: Option<Vec<(String, JsonValue)>>) -> (r: Result<
    TwofaSettings,
    SettingsError,
>)
    requires
        match data {
            Some(e) => members_wf(e@),
            None => true,
        },
    ensures
        settings_result(r) == settings_from_stored(stored_view(data)),
{
    let e = match data {
        Some(e) => e,
        None => return Err(SettingsError::NoData),
    };
    let ghost m = members(e@);
    proof {
        reveal_strlit("encoding");
        reveal_strlit("hash");
        reveal_strlit("secret");
        reveal_strlit("window");
    }
    let encoding = match member(&e, "encoding") {
        Some(JsonValue::Str(t)) => match encoding_from_name(t.as_str()) {
            Some(x) => x,
            None => return Err(SettingsError::UnknownValue),
        },
        Some(_) => return Err(SettingsError::UnknownValue),
        None => Encoding::Base32,
    };
    let hash = match member(&e, "hash") {
        Some(JsonValue::Str(t)) => match hash_from_name(t.as_str()) {
            Some(x) => x,
            None => return Err(SettingsError::UnknownValue),
        },
        Some(_) => return Err(SettingsError::UnknownValue),
        None => HashFunction::Sha512,
    };
    let secret = match member(&e, "secret") {
        Some(JsonValue::Str(t)) => {
            if t.as_str().unicode_len() == 0 {
                None
            } else {
                Some(t.clone())
            }
        },
        Some(_) => return Err(SettingsError::MismatchedType),
        None => None,
    };
    let window: u32 = match member(&e, "window") {
        Some(JsonValue::Unsigned(n)) => {
            if *n <= u32::MAX as u64 {
                *n as u32
            } else {
                return Err(SettingsError::MismatchedType);
            }
        },
        Some(JsonValue::Signed(n)) => {
            if 0 <= *n && *n <= u32::MAX as i64 {
                *n as u32
            } else {
                return Err(SettingsError::MismatchedType);
            }
        },
        Some(_) => return Err(SettingsError::MismatchedType),
        None => DEFAULT_WINDOW,
    };
    let mut settings = TwofaSettings::new();
    match secret {
        Some(t) => {
            settings.set_secret(t);
        },
        None => return Err(SettingsError::MissingSecret),
    }
    settings.set_window(Some(window));
    settings.set_hash(Some(hash));
    settings.set_encoding(Some(encoding));
    Ok(settings)
}

impl TwofaSettings {
    /// The stored JSON object for these settings.
    pub fn to_json(&self) -> (r: JsonValue)
        requires
            self@.complete(),
        ensures
            r.wf(),
            r@ == Json::Obj(settings_members(self@)),
    {
        let encoding = match self.encoding {
            Some(e) => e,
            None => Encoding::Base32,
        };
        let hash = match self.hash {
            Some(h) => h,
            None => HashFunction::Sha512,
        };
        let secret = match &self.secret {
            Some(t) => t.clone(),
            None => String::new(),
        };
        let window = match self.window {
            Some(w) => w,
            None => DEFAULT_WINDOW,
        };
        let mut e: Vec<(String, JsonValue)> = Vec::new();
        proof {
            reveal_strlit("encoding");
            reveal_strlit("hash");
            reveal_strlit("secret");
            reveal_strlit("window");
            assert(members(e@) =~= Map::empty());
        }
        let m0 = ("encoding".to_owned(), JsonValue::Str(encoding_to_name(encoding).to_owned()));
        proof {
            lemma_members_push(e@, m0);
        }
        e.push(m0);
        let m1 = ("hash".to_owned(), JsonValue::Str(hash_to_name(hash).to_owned()));
        proof {
            assert(!has_key(e@, "hash"@)) by {
                assert("hash"@.len() != "encoding"@.len());
            }
            lemma_members_push(e@, m1);
        }
        e.push(m1);
        let m2 = ("secret".to_owned(), JsonValue::Str(secret));
        proof {
            assert(!has_key(e@, "secret"@)) by {
                assert("secret"@.len() != "encoding"@.len());
                assert("secret"@.len() != "hash"@.len());
            }
            lemma_members_push(e@, m2);
        }
        e.push(m2);
        let m3 = ("window".to_owned(), JsonValue::Unsigned(window as u64));
        proof {
            assert(!has_key(e@, "window"@)) by {
                assert("window"@.len() != "encoding"@.len());
                assert("window"@.len() != "hash"@.len());
                assert("window"@[0] != "secret"@[0]);
            }
            lemma_members_push(e@, m3);
        }
        e.push(m3);
        proof {
            crate::json::lemma_object_view(e);
            assert(members(e@) =~= settings_members(self@));
        }
        JsonValue::Object(e)
    }
}

/// Reading back the stored object of valid settings gives the same settings.
pub proof fn lemma_settings_round_trip(s: SettingsModel)
    requires
        s.valid(),
    ensures
        settings_from_stored(Some(settings_members(s))) == Ok::<SettingsModel, SettingsError>(s),
{
    reveal_strlit("encoding");
    reveal_strlit("hash");
    reveal_strlit("secret");
    reveal_strlit("window");
    assert("hash"@.len() != "encoding"@.len());
    assert("secret"@.len() != "encoding"@.len());
    assert("secret"@.len() != "hash"@.len());
    assert("window"@.len() != "encoding"@.len());
    assert("window"@.len() != "hash"@.len());
    assert("window"@[0] != "secret"@[0]);
    lemma_names_round_trip(s.hash->0, s.encoding->0);
}

/// The upper-case name a hash function is shown with.
pub open spec fn hash_label(h: HashFunction) -> Seq<char> {
    match h {
        HashFunction::Sha1 => "SHA1"@,
        HashFunction::Sha256 => "SHA256"@,
        HashFunction::Sha512 => "SHA512"@,
    }
}

/// One line that shows settings with a secret, a hash and a window.
pub open spec fn description(s: SettingsModel) -> Seq<char> {
    "s: "@ + s.secret->0 + "; h: "@ + hash_label(s.hash->0) + "; w: "@ + decimal(
        s.window->0 as nat,
    ) + "; e: "@ + match s.encoding {
        Some(e) => encoding_name(e),
        None => "undefined"@,
    }
}

impl TwofaSettings {
    /// The settings on one line: `s: <secret>; h: <HASH>; w: <window>; e: <encoding>`.
    pub fn describe(&self) -> (r: String)
        requires
            self.secret is Some,
            self.hash is Some,
            self.window is Some,
        ensures
            r@ == description(self@),
    {
        let secret = match &self.secret {
            Some(t) => t.as_str(),
            None => "",
        };
        let hash = match self.hash {
            Some(HashFunction::Sha1) => "SHA1",
            Some(HashFunction::Sha256) => "SHA256",
            _ => "SHA512",
        };
        let window = match self.window {
            Some(w) => decimal_text(w),
            None => decimal_text(0),
        };
        let encoding = match self.encoding {
            Some(e) => encoding_to_name(e),
            None => "undefined",
        };
        let r = "s: ".to_owned().concat(secret).concat("; h: ").concat(hash).concat("; w: ").concat(
            window.as_str(),
        ).concat("; e: ").concat(encoding);
        assert(r@ =~= description(self@));
        r
    }
}

/// The object `to_json` writes for valid settings reads back as the same settings.
pub proof fn lemma_to_json_round_trip(t: TwofaSettings, e: Vec<(String, JsonValue)>)
    requires
        t@.valid(),
        JsonValue::Object(e)@ == Json::Obj(settings_members(t@)),
    ensures
        settings_from_stored(stored_view(Some(e))) == Ok::<SettingsModel, SettingsError>(t@),
{
    crate::json::lemma_object_view(e);
    lemma_settings_round_trip(t@);
}

} // verus!
