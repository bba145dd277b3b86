//! The encryption session: bookkeeping of which credentials the vault is
//! unlocked with. The cryptography itself is a separate collaborator; this
//! module only holds the session state, the armored-text conventions
//! (base64 under BEGIN/END marker lines), and the armor codec, whose base64
//! steps go through trusted wrappers around the `base64` crate.

use vstd::prelude::*;

use base64::Engine;

use crate::strutil::{
    concat2, spec_lines, split_lines, starts_with_str, str_eq, trim_spec, trim_str,
};

verus! {

/// Errors of the encryption collaborator's operations.
#[derive(Debug, Clone)]
pub enum EncryptionError {
    EncryptionFailed(String),
    DecryptionFailed(String),
    InvalidPassword,
    IdentityFileNotFound(String),
    InvalidIdentityFile(String),
    InvalidPublicKey(String),
    SessionLocked,
    IoError(String),
    NoMatchingKey,
    KeychainError(String),
    NoRecipients,
}

/// The credentials a session is unlocked with.
#[derive(Debug, Clone, PartialEq)]
pub enum EncryptionMethod {
    Password(String),
    IdentityFile(String),
    /// Identity file paths for multi-recipient decryption.
    Recipients(Vec<String>),
}

/// Mathematical image of an `EncryptionMethod`.
pub ghost enum MethodView {
    Password(Seq<char>),
    IdentityFile(Seq<char>),
    Recipients(Seq<Seq<char>>),
}

impl View for EncryptionMethod {
    type V = MethodView;

    open spec fn view(&self) -> MethodView {
        match self {
            EncryptionMethod::Password(s) => MethodView::Password(s@),
            EncryptionMethod::IdentityFile(s) => MethodView::IdentityFile(s@),
            EncryptionMethod::Recipients(v) => MethodView::Recipients(v.deep_view()),
        }
    }
}

impl DeepView for EncryptionMethod {
    type V = MethodView;

    open spec fn deep_view(&self) -> MethodView {
        self.view()
    }
}

/// Session cache for encryption credentials: the unlocked method, and the
/// public keys used for multi-recipient encryption.
#[derive(Debug)]
pub struct EncryptionSession {
    method: Option<EncryptionMethod>,
    public_keys: Vec<String>,
}

/// Mathematical image of an `EncryptionSession`.
pub ghost struct SessionView {
    pub method: Option<MethodView>,
    pub public_keys: Seq<Seq<char>>,
}

impl View for EncryptionSession {
    type V = SessionView;

    closed spec fn view(&self) -> SessionView {
        SessionView { method: self.method.deep_view(), public_keys: self.public_keys.deep_view() }
    }
}

fn clone_string_vec(v: &Vec<String>) -> (r: Vec<String>)
    ensures
        r.deep_view() == v.deep_view(),
{
    let mut r: Vec<String> = Vec::new();
    let n = v.len();
    let mut i: usize = 0;
    while i < n
        invariant
            0 <= i <= n,
            n == v@.len(),
            r@.len() == i,
            forall|j: int| 0 <= j < i ==> r@[j]@ == #[trigger] v@[j]@,
        decreases n - i,
    {
        let x = v[i].clone();
        r.push(x);
        i = i + 1;
    }
    proof {
        assert forall|j: int| 0 <= j < n implies r.deep_view()[j] == v.deep_view()[j] by {
            assert(r@[j]@ == v@[j]@);
        }
        assert(r.deep_view() =~= v.deep_view());
    }
    r
}

fn contains_string(v: &Vec<String>, s: &str) -> (r: bool)
    ensures
        r == v.deep_view().contains(s@),
{
    let n = v.len();
    let mut i: usize = 0;
    while i < n
        invariant
            0 <= i <= n,
            n == v@.len(),
            forall|j: int| 0 <= j < i ==> v.deep_view()[j] != s@,
        decreases n - i,
    {
        if str_eq(v[i].as_str(), s) {
            proof {
                assert(v.deep_view()[i as int] == s@);
            }
            return true;
        }
        i = i + 1;
    }
    proof {
        assert(forall|j: int| 0 <= j < v.deep_view().len() ==> v.deep_view()[j] != s@);
    }
    false
}

impl EncryptionSession {
    /// A locked session: no method, no public keys.
    pub fn new() -> (r: Self)
        ensures
            r@.method is None,
            r@.public_keys.len() == 0,
    {
        EncryptionSession { method: None, public_keys: Vec::new() }
    }

    /// Unlocks the session with a password.
    pub fn set_password(&mut self, password: String)
        ensures
            final(self)@.method == Some(MethodView::Password(password@)),
            final(self)@.public_keys == old(self)@.public_keys,
    {
        self.method = Some(EncryptionMethod::Password(password));
    }

    /// Unlocks the session with an identity file path.
    pub fn set_identity_file(&mut self, path: String)
        ensures
            final(self)@.method == Some(MethodView::IdentityFile(path@)),
            final(self)@.public_keys == old(self)@.public_keys,
    {
        self.method = Some(EncryptionMethod::IdentityFile(path));
    }

    /// Sets the identity files used for recipient-based decryption.
    pub fn set_recipient_identities(&mut self, paths: Vec<String>)
        ensures
            final(self)@.method == Some(MethodView::Recipients(paths.deep_view())),
            final(self)@.public_keys == old(self)@.public_keys,
    {
        self.method = Some(EncryptionMethod::Recipients(paths));
    }

    /// Sets the public keys used for multi-recipient encryption.
    pub fn set_public_keys(&mut self, keys: Vec<String>)
        ensures
            final(self)@.public_keys == keys.deep_view(),
            final(self)@.method == old(self)@.method,
    {
        self.public_keys = keys;
    }

    /// The public keys used for encryption.
    pub fn get_public_keys(&self) -> (r: Vec<String>)
        ensures
            r.deep_view() == self@.public_keys,
    {
        clone_string_vec(&self.public_keys)
    }

    /// Adds one identity file to the recipient set: appended when not
    /// already present; a session not in recipients mode switches to it with
    /// just this identity.
    pub fn add_recipient_identity(&mut self, path: String)
        ensures
            final(self)@.public_keys == old(self)@.public_keys,
            (match old(self)@.method {
                Some(MethodView::Recipients(paths)) => {
                    if paths.contains(path@) {
                        final(self)@.method == old(self)@.method
                    } else {
                        final(self)@.method == Some(MethodView::Recipients(paths.push(path@)))
                    }
                },
                _ => final(self)@.method == Some(MethodView::Recipients(seq![path@])),
            }),
    {
        match &mut self.method {
            Some(EncryptionMethod::Recipients(paths)) => {
                if !contains_string(paths, path.as_str()) {
                    let ghost before = paths.deep_view();
                    paths.push(path);
                    proof {
                        assert(paths.deep_view() =~= before.push(paths@.last()@));
                    }
                }
            },
            _ => {
                let mut v: Vec<String> = Vec::new();
                v.push(path);
                proof {
                    assert(v.deep_view() =~= seq![v@[0]@]);
                }
                self.method = Some(EncryptionMethod::Recipients(v));
            },
        }
    }

    /// Locks the session: credentials and public keys are cleared.
    pub fn lock(&mut self)
        ensures
            final(self)@.method is None,
            final(self)@.public_keys.len() == 0,
    {
        self.method = None;
        self.public_keys.clear();
    }

    /// Whether the session holds credentials.
    pub fn is_unlocked(&self) -> (r: bool)
        ensures
            r == (self@.method is Some),
    {
        self.method.is_some()
    }

    /// The current method, cloned.
    pub fn get_method(&self) -> (r: Option<EncryptionMethod>)
        ensures
            r.deep_view() == self@.method,
    {
        match &self.method {
            None => None,
            Some(EncryptionMethod::Password(s)) => Some(EncryptionMethod::Password(s.clone())),
            Some(EncryptionMethod::IdentityFile(s)) => Some(
                EncryptionMethod::IdentityFile(s.clone()),
            ),
            Some(EncryptionMethod::Recipients(v)) => Some(
                EncryptionMethod::Recipients(clone_string_vec(v)),
            ),
        }
    }
}

impl Default for EncryptionSession {
    /// A locked session.
    fn default() -> (r: Self)
        ensures
            r@.method is None,
            r@.public_keys.len() == 0,
    {
        EncryptionSession::new()
    }
}

/// Recipient information handed to the display layer.
#[derive(Debug, Clone)]
pub struct RecipientInfo {
    pub id: String,
    pub name: String,
    pub public_key: String,
    pub identity_file: Option<String>,
    pub is_unlocked: bool,
}

/// The base64 text of a byte string, standard alphabet with padding, as the
/// `base64` crate's standard engine produces it.
pub uninterp spec fn b64_of(bytes: Seq<u8>) -> Seq<char>;

/// What the `base64` crate's standard engine decodes a text to: the bytes,
/// or nothing when the text is not valid base64.
pub uninterp spec fn b64_decode_of(text: Seq<char>) -> Option<Seq<u8>>;

/// Relies on base64's `Engine::encode` with the standard engine: the result
/// is a pure function of the input bytes, decoding it gives the input back,
/// empty input encodes to empty text, and the output draws only on the
/// standard alphabet (letters, digits, `+`, `/`) and `=` padding, so it
/// holds no line feed, carriage return or dash.
#[verifier::external_body]
fn b64_encode(bytes: &[u8]) -> (r: String)
    requires
        bytes@.len() < 0x1000000000000000,
    ensures
        r@ == b64_of(bytes@),
        b64_decode_of(r@) == Some(bytes@),
        bytes@.len() == 0 ==> r@.len() == 0,
        forall|i: int| 0 <= i < r@.len() ==> r@[i] != '\n' && r@[i] != '\r' && r@[i] != '-',
{
    base64::engine::general_purpose::STANDARD.encode(bytes)
}

/// Relies on base64's `Engine::decode` with the standard engine: a pure
/// function of the input text, failing exactly on text that is not valid
/// base64; the error's rendering is carried as a string.
#[verifier::external_body]
fn b64_decode(text: &str) -> (r: Result<Vec<u8>, String>)
    ensures
        r matches Ok(v) ==> b64_decode_of(text@) == Some(v@),
        r is Err ==> b64_decode_of(text@) is None,
{
    match base64::engine::general_purpose::STANDARD.decode(text.as_bytes()) {
        Ok(v) => Ok(v),
        Err(e) => Err(e.to_string()),
    }
}

/// `s` broken into 64-character lines joined by line feeds (no trailing
/// line feed; a string of at most 64 characters stands alone).
pub open spec fn chunks64_spec(s: Seq<char>) -> Seq<char>
    decreases s.len(),
{
    if s.len() <= 64 {
        s
    } else {
        s.take(64) + seq!['\n'] + chunks64_spec(s.skip(64))
    }
}

/// The armored form of an encrypted byte string: its base64 text in
/// 64-character lines between the BEGIN and END marker lines.
pub open spec fn armor_spec(encrypted: Seq<u8>) -> Seq<char> {
    "-----BEGIN AGE ENCRYPTED FILE-----\n"@ + chunks64_spec(b64_of(encrypted))
        + "\n-----END AGE ENCRYPTED FILE-----"@
}

/// Breaks a base64 text into 64-character lines joined by line feeds.
fn chunk_lines(s: &str) -> (r: String)
    ensures
        r@ == chunks64_spec(s@),
{
    let n = s.unicode_len();
    proof {
        assert(s@.skip(0) =~= s@);
    }
    let mut acc = String::new();
    let mut pos: usize = 0;
    loop
        invariant_except_break
            chunks64_spec(s@) == acc@ + chunks64_spec(s@.skip(pos as int)),
        invariant
            0 <= pos <= n,
            n == s@.len(),
        ensures
            acc@ == chunks64_spec(s@),
        decreases n - pos,
    {
        let rest = n - pos;
        if rest <= 64 {
            acc.append(s.substring_char(pos, n));
            proof {
                assert(s@.skip(pos as int) =~= s@.subrange(pos as int, n as int));
                assert(chunks64_spec(s@.skip(pos as int)) == s@.skip(pos as int));
            }
            break;
        }
        acc.append(s.substring_char(pos, pos + 64));
        acc.append("\n");
        proof {
            reveal_strlit("\n");
            let t = s@.skip(pos as int);
            assert(t.take(64) =~= s@.subrange(pos as int, pos + 64));
            assert("\n"@ =~= seq!['\n']);
            assert(t.skip(64) =~= s@.skip(pos + 64));
            assert(acc@ + chunks64_spec(s@.skip(pos + 64)) =~= chunks64_spec(s@));
        }
        pos = pos + 64;
    }
    acc
}

/// Armors encrypted bytes: base64 in 64-character lines between the BEGIN
/// and END markers.
pub fn armor_encrypt(encrypted: &[u8]) -> (r: String)
    requires
        encrypted@.len() < 0x1000000000000000,
    ensures
        r@ == armor_spec(encrypted@),
{
    let encoded = b64_encode(encrypted);
    let chunked = chunk_lines(encoded.as_str());
    let mut r = String::from_str("-----BEGIN AGE ENCRYPTED FILE-----\n");
    r.append(chunked.as_str());
    r.append("\n-----END AGE ENCRYPTED FILE-----");
    r
}

/// A marker line: one that begins with five dashes.
pub open spec fn is_marker_line(l: Seq<char>) -> bool {
    "-----"@.is_prefix_of(l)
}

/// The base64 payload of an armored text: its non-marker lines joined.
pub open spec fn armor_payload_spec(lines: Seq<Seq<char>>) -> Seq<char>
    decreases lines.len(),
{
    if lines.len() == 0 {
        Seq::empty()
    } else if is_marker_line(lines[0]) {
        armor_payload_spec(lines.drop_first())
    } else {
        lines[0] + armor_payload_spec(lines.drop_first())
    }
}

/// Whether a text is armored: trimmed, it begins with the BEGIN marker.
pub open spec fn is_encrypted_spec(content: Seq<char>) -> bool {
    "-----BEGIN AGE ENCRYPTED FILE-----"@.is_prefix_of(trim_spec(content))
}

/// Whether content is encrypted, that is, in the armored format.
pub fn is_encrypted(content: &str) -> (r: bool)
    ensures
        r == is_encrypted_spec(content@),
{
    let trimmed = trim_str(content);
    starts_with_str(trimmed.as_str(), "-----BEGIN AGE ENCRYPTED FILE-----")
}

/// The 64-character lines `chunks64_spec` lays out, as a list.
spec fn chunk_list(s: Seq<char>) -> Seq<Seq<char>>
    decreases s.len(),
{
    if s.len() <= 64 {
        seq![s]
    } else {
        seq![s.take(64)] + chunk_list(s.skip(64))
    }
}

proof fn lemma_lines_of_chunks(enc: Seq<char>, footer: Seq<char>)
    requires
        forall|i: int| 0 <= i < enc.len() ==> enc[i] != '\n' && enc[i] != '\r',
        footer.len() > 0,
        forall|i: int| 0 <= i < footer.len() ==> footer[i] != '\n',
    ensures
        spec_lines(chunks64_spec(enc) + seq!['\n'] + footer) == chunk_list(enc) + seq![footer],
    decreases enc.len(),
{
    let body = chunks64_spec(enc) + seq!['\n'] + footer;
    if enc.len() <= 64 {
        assert(chunks64_spec(enc) == enc);
        assert forall|j: int| 0 <= j < enc.len() implies body[j] != '\n' by {
            assert(body[j] == enc[j]);
        }
        assert(body[enc.len() as int] == '\n');
        crate::strutil::lemma_spec_lines_split(body, enc.len() as int);
        assert(body.subrange(0, enc.len() as int) =~= enc);
        assert(crate::strutil::strip_cr(enc) == enc);
        assert(body.subrange(enc.len() as int + 1, body.len() as int) =~= footer);
        crate::strutil::lemma_spec_lines_whole(footer);
        assert(spec_lines(body) =~= chunk_list(enc) + seq![footer]);
    } else {
        let head = enc.take(64);
        let rest = enc.skip(64);
        assert forall|i: int| 0 <= i < rest.len() implies rest[i] != '\n' && rest[i] != '\r' by {
            assert(rest[i] == enc[i + 64]);
        }
        lemma_lines_of_chunks(rest, footer);
        let tail_body = chunks64_spec(rest) + seq!['\n'] + footer;
        assert(body =~= head + seq!['\n'] + tail_body);
        assert forall|j: int| 0 <= j < 64 implies body[j] != '\n' by {
            assert(body[j] == enc[j]);
        }
        assert(body[64] == '\n');
        crate::strutil::lemma_spec_lines_split(body, 64);
        assert(body.subrange(0, 64) =~= head);
        assert(head[63] == enc[63]);
        assert(crate::strutil::strip_cr(head) == head);
        assert(body.subrange(65, body.len() as int) =~= tail_body);
        assert(spec_lines(body) =~= seq![head] + (chunk_list(rest) + seq![footer]));
        assert(chunk_list(enc) == seq![head] + chunk_list(rest));
        assert(spec_lines(body) =~= chunk_list(enc) + seq![footer]);
    }
}

proof fn lemma_payload_of_chunks(enc: Seq<char>, tail: Seq<Seq<char>>)
    requires
        forall|i: int| 0 <= i < enc.len() ==> enc[i] != '-',
        armor_payload_spec(tail) == Seq::<char>::empty(),
    ensures
        armor_payload_spec(chunk_list(enc) + tail) == enc,
    decreases enc.len(),
{
    if enc.len() <= 64 {
        let l = chunk_list(enc) + tail;
        assert(l[0] == enc);
        assert(l.drop_first() =~= tail);
        assert(!is_marker_line(enc)) by {
            reveal_strlit("-----");
            if is_marker_line(enc) {
                assert("-----"@[0] == enc.subrange(0, 5)[0]);
                assert(enc[0] == '-');
            }
        }
        assert(armor_payload_spec(l) == enc + armor_payload_spec(tail));
        assert(enc + Seq::<char>::empty() =~= enc);
    } else {
        let head = enc.take(64);
        let rest = enc.skip(64);
        assert forall|i: int| 0 <= i < rest.len() implies rest[i] != '-' by {
            assert(rest[i] == enc[i + 64]);
        }
        lemma_payload_of_chunks(rest, tail);
        let l = chunk_list(enc) + tail;
        assert(l[0] == head);
        assert(l.drop_first() =~= chunk_list(rest) + tail);
        assert(!is_marker_line(head)) by {
            reveal_strlit("-----");
            if is_marker_line(head) {
                assert("-----"@[0] == head.subrange(0, 5)[0]);
                assert(head[0] == enc[0]);
            }
        }
        assert(armor_payload_spec(l) == head + armor_payload_spec(chunk_list(rest) + tail));
        assert(head + rest =~= enc);
    }
}

/// Round trip of the armor codec at the text level: the armored form of a
/// base64 text — which, per the encode wrapper's contract, holds no line
/// feed, carriage return or dash — is recognized as encrypted, and
/// dearmoring recovers exactly that text: the armored form trims to itself
/// and its non-marker lines join back to the text, which decoding then
/// turns back into the original bytes.
pub proof fn lemma_dearmor_of_armor(enc: Seq<char>)
    requires
        forall|i: int| 0 <= i < enc.len() ==> enc[i] != '\n' && enc[i] != '\r' && enc[i] != '-',
    ensures
        ({
            let armored = "-----BEGIN AGE ENCRYPTED FILE-----\n"@ + chunks64_spec(enc)
                + "\n-----END AGE ENCRYPTED FILE-----"@;
            &&& is_encrypted_spec(armored)
            &&& armor_payload_spec(spec_lines(trim_spec(armored))) == enc
        }),
{
    reveal_strlit("-----BEGIN AGE ENCRYPTED FILE-----\n");
    reveal_strlit("-----BEGIN AGE ENCRYPTED FILE-----");
    reveal_strlit("\n-----END AGE ENCRYPTED FILE-----");
    reveal_strlit("-----END AGE ENCRYPTED FILE-----");
    reveal_strlit("-----");
    let h = "-----BEGIN AGE ENCRYPTED FILE-----"@;
    let hn = "-----BEGIN AGE ENCRYPTED FILE-----\n"@;
    let nf = "\n-----END AGE ENCRYPTED FILE-----"@;
    let f = "-----END AGE ENCRYPTED FILE-----"@;
    assert(hn =~= h + seq!['\n']);
    assert(nf =~= seq!['\n'] + f);
    let armored = hn + chunks64_spec(enc) + nf;
    let body = chunks64_spec(enc) + seq!['\n'] + f;
    assert(armored =~= h + seq!['\n'] + body);
    assert(forall|j: int| 0 <= j < 34 ==> h[j] != '\n');
    assert(forall|j: int| 0 <= j < 32 ==> f[j] != '\n');
    lemma_lines_of_chunks(enc, f);
    assert forall|j: int| 0 <= j < 34 implies armored[j] != '\n' by {
        assert(armored[j] == h[j]);
    }
    assert(armored[34] == '\n');
    crate::strutil::lemma_spec_lines_split(armored, 34);
    assert(armored.subrange(0, 34) =~= h);
    assert(h[33] == '-');
    assert(crate::strutil::strip_cr(h) == h);
    assert(armored.subrange(35, armored.len() as int) =~= body);
    assert(spec_lines(armored) == seq![h] + (chunk_list(enc) + seq![f]));

    assert(armored[0] == '-');
    assert(!crate::strutil::is_ws('-'));
    assert(crate::strutil::trim_start_spec(armored) == armored);
    assert(armored[armored.len() - 1] == f[31]);
    assert(f[31] == '-');
    assert(crate::strutil::trim_end_spec(armored) == armored);
    assert(trim_spec(armored) == armored);

    assert(h =~= armored.subrange(0, 34));
    assert(h.is_prefix_of(armored));
    assert(is_encrypted_spec(armored));

    assert(is_marker_line(h)) by {
        assert("-----"@ =~= h.subrange(0, 5));
    }
    assert(is_marker_line(f)) by {
        assert("-----"@ =~= f.subrange(0, 5));
    }
    let fl = seq![f];
    assert(fl.drop_first() =~= Seq::<Seq<char>>::empty());
    assert(armor_payload_spec(Seq::<Seq<char>>::empty()) == Seq::<char>::empty());
    assert(armor_payload_spec(fl) == armor_payload_spec(fl.drop_first()));
    assert(armor_payload_spec(fl) == Seq::<char>::empty());
    lemma_payload_of_chunks(enc, fl);
    let all = seq![h] + (chunk_list(enc) + fl);
    assert(all[0] == h);
    assert(all.drop_first() =~= chunk_list(enc) + fl);
    assert(armor_payload_spec(all) == enc);
}

/// Dearmors an armored text back to the encrypted bytes: fails when the
/// trimmed text does not begin with the BEGIN marker, or when the joined
/// non-marker lines are not valid base64.
pub fn dearmor_decrypt(armored: &str) -> (r: Result<Vec<u8>, EncryptionError>)
    ensures
        r is Ok <==> is_encrypted_spec(armored@) && b64_decode_of(
            armor_payload_spec(spec_lines(trim_spec(armored@))),
        ) is Some,
        r matches Ok(v) ==> b64_decode_of(armor_payload_spec(spec_lines(trim_spec(armored@))))
            == Some(v@),
        r matches Err(e) ==> e is DecryptionFailed,
{
    let trimmed = trim_str(armored);
    if !starts_with_str(trimmed.as_str(), "-----BEGIN AGE ENCRYPTED FILE-----") {
        return Err(EncryptionError::DecryptionFailed(String::from_str("Invalid armor format")));
    }
    let lines = split_lines(trimmed.as_str());
    let ghost lv = lines.deep_view();
    let n = lines.len();
    let mut payload = String::new();
    let mut i: usize = 0;
    proof {
        assert(lv.skip(0) =~= lv);
    }
    while i < n
        invariant
            0 <= i <= n,
            n == lines@.len(),
            lv == lines.deep_view(),
            lv.len() == n,
            armor_payload_spec(lv) == payload@ + armor_payload_spec(lv.skip(i as int)),
        decreases n - i,
    {
        let line = &lines[i];
        proof {
            assert(lines@[i as int].deep_view() == lv[i as int]);
            let t = lv.skip(i as int);
            assert(t[0] == lv[i as int]);
            assert(t.drop_first() =~= lv.skip(i + 1));
        }
        if !starts_with_str(line.as_str(), "-----") {
            payload.append(line.as_str());
        }
        i = i + 1;
    }
    proof {
        assert(lv.skip(n as int).len() == 0);
        assert(armor_payload_spec(lv.skip(n as int)) =~= Seq::<char>::empty());
        assert(payload@ =~= armor_payload_spec(lv));
    }
    match b64_decode(payload.as_str()) {
        Ok(v) => Ok(v),
        Err(e) => Err(
            EncryptionError::DecryptionFailed(concat2("Base64 decode error: ", e.as_str())),
        ),
    }
}

} // verus!
