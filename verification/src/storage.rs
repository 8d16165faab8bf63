//! Where the application keeps its data, per user, and the encryption of
//! saved chat history.
//!
//! Layout under the data directory:
//!   p2p-chat.log                       shared log
//!   users/{node_id}/profile.json       the profile
//!   users/{node_id}/peers.json         saved peers
//!   users/{node_id}/history/{peer}.bin encrypted chat history
//!
//! Paths are texts with `/` as separator.

use vstd::prelude::*;
use crate::crypto::{CryptoError, NONCE_LEN, TAG_LEN, PBKDF2_ROUNDS, check_password, decrypt, derive_key, encrypt, generate_salt, hash_password, hex_bytes_value, hex_cuttable, hex_text, key_context, spec_aes_open, spec_aes_seal, spec_pbkdf2_sha256};
use crate::text::{cat, chars_of, push_char, str_is, string_from_chars};

verus! {

/// A registered account.
#[derive(Debug, Clone)]
pub struct Profile {
    pub node_id: String,
    pub username: String,
    pub port: u16,
    /// PBKDF2 hash of the password, hex.
    pub password_hash: String,
    /// Salt of the hash and of the key derivation, hex.
    pub salt: String,
}

/// What setting up or logging in reports to the user interface.
#[derive(Debug)]
pub struct SetupResult {
    pub listen_addr: String,
    pub lan_ip: String,
}

/// `char::is_alphanumeric` of `c` (Unicode Alphabetic or Numeric).
pub uninterp spec fn spec_is_alphanumeric(c: char) -> bool;

/// An ASCII letter or digit.
pub open spec fn ascii_alnum(c: char) -> bool {
    ('a' <= c <= 'z') || ('A' <= c <= 'Z') || ('0' <= c <= '9')
}

/// `char::is_alphanumeric`; the result is `spec_is_alphanumeric(c)`. On
/// ASCII, where the alphabetic characters are the letters and the numeric
/// ones the digits, it is [`ascii_alnum`].
#[verifier::external_body]
fn is_alphanumeric(c: char) -> (r: bool)
    ensures
        r == spec_is_alphanumeric(c),
        c <= '\u{7f}' ==> r == ascii_alnum(c),
{
    c.is_alphanumeric()
}

/// A character allowed in a file name as is.
pub open spec fn name_char(c: char) -> bool {
    spec_is_alphanumeric(c) || c == '-' || c == '_'
}

/// `name` with every character that is not alphanumeric, `-` or `_`
/// replaced by `_`.
pub open spec fn sanitized(name: Seq<char>) -> Seq<char> {
    Seq::new(name.len(), |i: int| if name_char(name[i]) { name[i] } else { '_' })
}

/// `base` followed by the path component `part` (`PathBuf::join` for a
/// relative component).
pub open spec fn join_path(base: Seq<char>, part: Seq<char>) -> Seq<char> {
    if base.len() == 0 {
        part
    } else if base.last() == '/' {
        base + part
    } else {
        base + seq!['/'] + part
    }
}

/// Joins a path component to a path.
pub fn join(base: &str, part: &str) -> (r: String)
    ensures
        r@ == join_path(base@, part@),
{
    let n = base.unicode_len();
    if n == 0 {
        String::from_str(part)
    } else if base.get_char(n - 1) == '/' {
        cat(String::from_str(base), part)
    } else {
        let mut s = String::from_str(base);
        push_char(&mut s, '/');
        cat(s, part)
    }
}

/// What sanitizing makes of an ASCII character: letters, digits, `-` and
/// `_` stay, anything else becomes `_`.
pub open spec fn ascii_sanitized(c: char) -> char {
    if ascii_alnum(c) || c == '-' || c == '_' {
        c
    } else {
        '_'
    }
}

/// Replaces the characters not allowed in a file name by `_`; so no path
/// separator or dot is left.
pub fn sanitize(name: &str) -> (r: String)
    ensures
        r@ == sanitized(name@),
        forall|j: int|
            0 <= j < name@.len() && name@[j] <= '\u{7f}' ==> r@[j] == ascii_sanitized(#[trigger] name@[j]),
        forall|j: int| 0 <= j < r@.len() ==> #[trigger] r@[j] != '/' && r@[j] != '.' && r@[j] != '\\',
{
    let cs = chars_of(name);
    let mut r = String::new();
    let mut i: usize = 0;
    while i < cs.len()
        invariant
            cs@ == name@,
            i <= cs@.len(),
            r@ == sanitized(name@).take(i as int),
            forall|j: int|
                0 <= j < i && name@[j] <= '\u{7f}' ==> spec_is_alphanumeric(#[trigger] name@[j])
                    == ascii_alnum(name@[j]),
        decreases cs@.len() - i,
    {
        let c = cs[i];
        if is_alphanumeric(c) || c == '-' || c == '_' {
            push_char(&mut r, c);
        } else {
            push_char(&mut r, '_');
        }
        assert(r@ =~= sanitized(name@).take(i + 1));
        i = i + 1;
    }
    assert(sanitized(name@).take(cs@.len() as int) =~= sanitized(name@));
    r
}

/// Sanitizing a sanitized name changes nothing.
pub proof fn lemma_sanitize_idempotent(name: Seq<char>)
    ensures
        sanitized(sanitized(name)) == sanitized(name),
{
    assert(sanitized(sanitized(name)) =~= sanitized(name));
}

/// The directory of user `node_id` under the data directory `dir`.
pub open spec fn user_dir_spec(dir: Seq<char>, node_id: Seq<char>) -> Seq<char> {
    join_path(join_path(dir, "users"@), sanitized(node_id))
}

/// The file keeping the history with `peer_id` in the user directory `user_dir`.
pub open spec fn history_path_spec(user_dir: Seq<char>, peer_id: Seq<char>) -> Seq<char> {
    join_path(join_path(user_dir, "history"@), sanitized(peer_id) + ".bin"@)
}

/// The peer id of a history file name: the name without its `.bin`
/// extension (`Path::extension` / `Path::file_stem`: a name whose only dot
/// leads it has no extension).
pub open spec fn history_peer_spec(file_name: Seq<char>) -> Option<Seq<char>> {
    match crate::registry::last_index_of(file_name, '.') {
        Some(i) => if i > 0 && file_name.subrange(i + 1, file_name.len() as int) == "bin"@ {
            Some(file_name.subrange(0, i))
        } else {
            None
        },
        None => None,
    }
}

/// A history file is read back under the peer it was written for: the file
/// name that the history of `peer_id` is saved under (see
/// [`history_path_spec`]) gives its sanitized id again when the history
/// directory is loaded, for an id whose sanitized form has no dot.
pub proof fn lemma_history_file_roundtrip(peer_id: Seq<char>)
    requires
        peer_id.len() > 0,
        !sanitized(peer_id).contains('.'),
    ensures
        history_peer_spec(sanitized(peer_id) + ".bin"@) == Some(sanitized(peer_id)),
{
    reveal_strlit(".bin");
    reveal_strlit("bin");
    let n = sanitized(peer_id);
    let f = n + ".bin"@;
    let f1 = n + seq!['.', 'b', 'i'];
    let f2 = n + seq!['.', 'b'];
    let f3 = n + seq!['.'];
    assert(f =~= n + seq!['.', 'b', 'i', 'n']);
    assert(f.drop_last() =~= f1);
    assert(f1.drop_last() =~= f2);
    assert(f2.drop_last() =~= f3);
    assert(f.last() == 'n' && f1.last() == 'i' && f2.last() == 'b' && f3.last() == '.');
    assert(crate::registry::last_index_of(f3, '.') == Some(n.len() as int));
    assert(crate::registry::last_index_of(f2, '.') == Some(n.len() as int));
    assert(crate::registry::last_index_of(f1, '.') == Some(n.len() as int));
    assert(crate::registry::last_index_of(f, '.') == Some(n.len() as int));
    assert(f.subrange(n.len() + 1 as int, f.len() as int) =~= "bin"@);
    assert(f.subrange(0, n.len() as int) =~= n);
}

/// The peer whose history a file of the history directory holds, if the
/// file is a history file (its extension is `bin`).
pub fn history_peer_id(file_name: &str) -> (r: Option<String>)
    ensures
        match history_peer_spec(file_name@) {
            Some(p) => r matches Some(s) && s@ == p,
            None => r is None,
        },
{
    let cs = chars_of(file_name);
    let n = cs.len();
    let mut j: usize = n;
    assert(file_name@.subrange(0, n as int) =~= file_name@);
    while j > 0 && cs[j - 1] != '.'
        invariant
            cs@ == file_name@,
            n == cs@.len(),
            j <= n,
            crate::registry::last_index_of(file_name@, '.') == crate::registry::last_index_of(
                file_name@.subrange(0, j as int),
                '.',
            ),
        decreases j,
    {
        assert(file_name@.subrange(0, j as int).drop_last() =~= file_name@.subrange(0, j - 1));
        j = j - 1;
    }
    if j == 0 {
        assert(file_name@.subrange(0, 0) =~= Seq::<char>::empty());
        return None;
    }
    let i = j - 1;
    assert(crate::registry::last_index_of(file_name@.subrange(0, j as int), '.') == Some(i as int));
    if i == 0 {
        return None;
    }
    let ext = string_from_chars(cs.as_slice(), j, n);
    if str_is(ext.as_str(), "bin") {
        Some(string_from_chars(cs.as_slice(), 0, i))
    } else {
        None
    }
}

/// The application's storage: its data directory, and once a user is
/// active, the user and the key that encrypts the user's history.
pub struct Storage {
    dir: String,
    active_user: Option<String>,
    encryption_key: Option<[u8; 32]>,
}

impl Storage {
    /// The data directory.
    pub closed spec fn spec_dir(&self) -> Seq<char> {
        self.dir@
    }

    /// The active user, once set.
    pub closed spec fn spec_active_user(&self) -> Option<Seq<char>> {
        crate::event::opt_text(self.active_user)
    }

    /// The encryption key, once set.
    pub closed spec fn spec_key(&self) -> Option<Seq<u8>> {
        match self.encryption_key {
            Some(k) => Some(k@),
            None => None,
        }
    }

    /// Storage under `dir`, with no active user.
    pub fn new(dir: String) -> (r: Self)
        ensures
            r.spec_dir() == dir@,
            r.spec_active_user() is None,
            r.spec_key() is None,
    {
        Storage { dir, active_user: None, encryption_key: None }
    }

    /// Makes `node_id` the active user with the key derived from its
    /// password (once its directories exist).
    pub fn set_active_user(&mut self, node_id: &str, key: [u8; 32])
        ensures
            final(self).spec_dir() == old(self).spec_dir(),
            final(self).spec_active_user() == Some(node_id@),
            final(self).spec_key() == Some(key@),
    {
        self.active_user = Some(String::from_str(node_id));
        self.encryption_key = Some(key);
    }

    /// Whether a user is active.
    pub fn has_active_user(&self) -> (r: bool)
        ensures
            r == self.spec_active_user() is Some,
    {
        self.active_user.is_some()
    }

    /// Whether the encryption key is set.
    pub fn has_key(&self) -> (r: bool)
        ensures
            r == self.spec_key() is Some,
    {
        self.encryption_key.is_some()
    }

    /// Path of the shared log file.
    pub fn log_path(&self) -> (r: String)
        ensures
            r@ == join_path(self.spec_dir(), "p2p-chat.log"@),
    {
        join(self.dir.as_str(), "p2p-chat.log")
    }

    /// The data directory.
    pub fn data_dir(&self) -> (r: &String)
        ensures
            r@ == self.spec_dir(),
    {
        &self.dir
    }

    /// The directory holding the users' directories.
    pub fn users_dir(&self) -> (r: String)
        ensures
            r@ == join_path(self.spec_dir(), "users"@),
    {
        join(self.dir.as_str(), "users")
    }

    /// The directory of user `node_id`.
    pub fn user_dir(&self, node_id: &str) -> (r: String)
        ensures
            r@ == user_dir_spec(self.spec_dir(), node_id@),
    {
        let users = join(self.dir.as_str(), "users");
        let name = sanitize(node_id);
        join(users.as_str(), name.as_str())
    }

    /// The profile file of user `node_id`.
    pub fn profile_path(&self, node_id: &str) -> (r: String)
        ensures
            r@ == join_path(user_dir_spec(self.spec_dir(), node_id@), "profile.json"@),
    {
        let d = self.user_dir(node_id);
        join(d.as_str(), "profile.json")
    }

    /// The directory of the active user.
    pub fn active_dir(&self) -> (r: String)
        requires
            self.spec_active_user() is Some,
        ensures
            r@ == user_dir_spec(self.spec_dir(), self.spec_active_user()->0),
    {
        match &self.active_user {
            Some(u) => self.user_dir(u.as_str()),
            None => String::new(),
        }
    }

    /// The saved-peers file of the active user.
    pub fn peers_path(&self) -> (r: String)
        requires
            self.spec_active_user() is Some,
        ensures
            r@ == join_path(user_dir_spec(self.spec_dir(), self.spec_active_user()->0), "peers.json"@),
    {
        let d = self.active_dir();
        join(d.as_str(), "peers.json")
    }

    /// The history directory of the active user.
    pub fn history_dir(&self) -> (r: String)
        requires
            self.spec_active_user() is Some,
        ensures
            r@ == join_path(user_dir_spec(self.spec_dir(), self.spec_active_user()->0), "history"@),
    {
        let d = self.active_dir();
        join(d.as_str(), "history")
    }

    /// The file holding the active user's history with `peer_id`.
    pub fn history_path(&self, peer_id: &str) -> (r: String)
        requires
            self.spec_active_user() is Some,
        ensures
            r@ == history_path_spec(
                user_dir_spec(self.spec_dir(), self.spec_active_user()->0),
                peer_id@,
            ),
    {
        let h = self.history_dir();
        let name = cat(sanitize(peer_id), ".bin");
        join(h.as_str(), name.as_str())
    }

    /// The encryption key of the active user.
    pub fn key(&self) -> (r: [u8; 32])
        requires
            self.spec_key() is Some,
        ensures
            self.spec_key() == Some(r@),
    {
        match self.encryption_key {
            Some(k) => k,
            None => [0u8; 32],
        }
    }

    /// Encrypts serialised history for saving, under the active key.
    pub fn seal_history(&self, plaintext: &[u8]) -> (r: Result<Vec<u8>, CryptoError>)
        requires
            self.spec_key() is Some,
        ensures
            r matches Ok(out) ==> exists|nonce: Seq<u8>|
                nonce.len() == NONCE_LEN && (#[trigger] spec_aes_seal(
                    self.spec_key()->0,
                    nonce,
                    plaintext@,
                ) matches Some(c) && out@ == nonce + c),
            r matches Ok(out) ==> out@.len() == NONCE_LEN + plaintext@.len() + TAG_LEN,
            r matches Err(e) ==> e == CryptoError::Random || (e == CryptoError::Encrypt && exists|
                nonce: Seq<u8>|
                nonce.len() == NONCE_LEN && #[trigger] spec_aes_seal(self.spec_key()->0, nonce, plaintext@)
                    is None),
    {
        let k = self.key();
        let r = encrypt(&k, plaintext);
        proof {
            if r is Ok {
                let out = r->Ok_0;
                let n = choose|nonce: Seq<u8>|
                    nonce.len() == NONCE_LEN && (#[trigger] spec_aes_seal(k@, nonce, plaintext@) matches Some(c)
                        && out@ == nonce + c);
                assert(spec_aes_seal(self.spec_key()->0, n, plaintext@) matches Some(c) && out@ == n + c);
            }
        }
        r
    }

    /// Decrypts a saved history file under the active key; what
    /// [`Storage::seal_history`] produced is read back as it was.
    pub fn open_history(&self, data: &[u8]) -> (r: Result<Vec<u8>, CryptoError>)
        requires
            self.spec_key() is Some,
        ensures
            data@.len() < NONCE_LEN ==> r == Err::<Vec<u8>, CryptoError>(CryptoError::TooShort),
            data@.len() >= NONCE_LEN ==> match spec_aes_open(
                self.spec_key()->0,
                data@.take(NONCE_LEN as int),
                data@.skip(NONCE_LEN as int),
            ) {
                Some(p) => r matches Ok(v) && v@ == p,
                None => r == Err::<Vec<u8>, CryptoError>(CryptoError::Decrypt),
            },
            forall|nonce: Seq<u8>, p: Seq<u8>|
                nonce.len() == NONCE_LEN && (#[trigger] spec_aes_seal(self.spec_key()->0, nonce, p) matches Some(c)
                    && data@ == nonce + c) ==> (r matches Ok(v) && v@ == p),
    {
        let k = self.key();
        decrypt(&k, data)
    }
}

/// The key that encrypts the history of a user with password `password`
/// and hex salt `salt`.
pub open spec fn user_key(password: Seq<char>, salt: Seq<char>) -> Seq<u8> {
    spec_pbkdf2_sha256(
        vstd::utf8::encode_utf8(password),
        hex_bytes_value(vstd::utf8::encode_utf8(salt)) + key_context(),
        PBKDF2_ROUNDS,
    )
}

/// The stored hash of password `password` with hex salt `salt`.
pub open spec fn password_hash_text(password: Seq<char>, salt: Seq<char>) -> Seq<char> {
    hex_text(spec_pbkdf2_sha256(vstd::utf8::encode_utf8(password), hex_bytes_value(vstd::utf8::encode_utf8(salt)), PBKDF2_ROUNDS))
}

/// A login attempt on the stored `profile` of `node_id` (`None` when there
/// is none): the profile and the key that encrypts the user's history, or
/// the error shown.
pub fn authenticate(node_id: &str, profile: Option<Profile>, password: &str) -> (r: Result<(Profile, [u8; 32]), String>)
    requires
        profile matches Some(p) ==> hex_cuttable(vstd::utf8::encode_utf8(p.salt@)),
    ensures
        profile is None ==> (r matches Err(e) && e@ == "Profile '"@ + node_id@ + "' not found"@),
        profile matches Some(p) ==> if p.password_hash@ == password_hash_text(password@, p.salt@) {
            r matches Ok((q, key)) && q == p && key@ == user_key(password@, p.salt@)
        } else {
            r matches Err(e) && e@ == "Incorrect password"@
        },
{
    match profile {
        None => {
            let s = cat(String::from_str("Profile '"), node_id);
            Err(cat(s, "' not found"))
        },
        Some(p) => {
            if check_password(password, p.salt.as_str(), p.password_hash.as_str()) {
                let key = derive_key(password, p.salt.as_str());
                Ok((p, key))
            } else {
                Err(String::from_str("Incorrect password"))
            }
        },
    }
}

/// A new account: a fresh random salt, the hash of the password under it
/// (kept in the profile), and the key that encrypts the user's history;
/// [`CryptoError::Random`] where no salt could be drawn.
pub fn new_profile(node_id: String, username: String, port: u16, password: &str) -> (r: Result<
    (Profile, [u8; 32]),
    CryptoError,
>)
    ensures
        r matches Ok((p, key)) ==> {
            &&& p.node_id == node_id
            &&& p.username == username
            &&& p.port == port
            &&& exists|b: Seq<u8>| b.len() == 32 && #[trigger] hex_text(b) == p.salt@
            &&& p.password_hash@ == password_hash_text(password@, p.salt@)
            &&& key@ == user_key(password@, p.salt@)
        },
        r matches Err(e) ==> e == CryptoError::Random,
{
    let salt = match generate_salt() {
        Ok(s) => s,
        Err(e) => {
            return Err(e);
        },
    };
    proof {
        let b = choose|b: Seq<u8>| b.len() == 32 && salt@ == hex_text(b);
        crate::crypto::lemma_hex_text_utf8(b);
    }
    let password_hash = hash_password(password, salt.as_str());
    let key = derive_key(password, salt.as_str());
    Ok((Profile { node_id, username, port, password_hash, salt }, key))
}

} // verus!
