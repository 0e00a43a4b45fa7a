//! Lists of authorized keys: one user and one public key on each line.

use std::collections::HashMap;
use vstd::prelude::*;
use crate::base64::{decode, decode_spec};
use crate::error::AuthError;
use crate::text::{
    after_line, chars_of, is_word, join, join_spec, lemma_line_len_bound, lemma_words_nonempty,
    lemma_words_of_join, line_end, line_len, push_range, split_words, str_eq, views_of, words,
};

verus! {

/// `sshkeys::PublicKey`: a public key that was read, held as it is.
#[verifier::external_type_specification]
#[verifier::external_body]
pub struct ExPublicKey(sshkeys::PublicKey);

/// One user and the key that the user may log in with.
#[allow(non_snake_case)]
#[derive(Debug)]
pub struct User {
    Username: String,
    Public_key: String,
}

/// What a user entry holds, as plain sequences.
pub struct UserView {
    pub username: Seq<char>,
    pub public_key: Seq<char>,
}

impl View for User {
    type V = UserView;

    closed spec fn view(&self) -> UserView {
        UserView { username: self.Username@, public_key: self.Public_key@ }
    }
}

impl User {
    /// The entry of the user `username` with the key `public_key`.
    pub fn new(username: String, public_key: String) -> (user: User)
        ensures
            user@ == (UserView { username: username@, public_key: public_key@ }),
    {
        User { Username: username, Public_key: public_key }
    }

    /// The entry of `username` with `public_key` once the key was read:
    /// the entry where the key is one, and the error of the key reader
    /// where it is none.
    pub fn from_verdict(username: String, public_key: String, verdict: Result<(), sshkeys::Error>) -> (r:
        Result<User, AuthError>)
        ensures
            match verdict {
                Ok(_) => r matches Ok(u) && u@ == (UserView {
                    username: username@,
                    public_key: public_key@,
                }),
                Err(e) => r == Err::<User, AuthError>(AuthError::Key(e)),
            },
    {
        match verdict {
            Ok(_) => Ok(User::new(username, public_key)),
            Err(e) => Err(AuthError::Key(e)),
        }
    }

    /// The name of the user.
    pub fn username(&self) -> (name: &String)
        ensures
            name@ == self@.username,
    {
        &self.Username
    }

    /// The key of the user: the name of its type, the key in base64 and
    /// what follows them, with single blanks between.
    pub fn public_key(&self) -> (key: &String)
        ensures
            key@ == self@.public_key,
    {
        &self.Public_key
    }
}

/// The views of a sequence of users.
pub open spec fn user_views(users: Seq<User>) -> Seq<UserView> {
    users.map_values(|u: User| u@)
}

/// How a user may prove who they are.
#[derive(Clone, Copy, Debug, PartialEq, Eq, Structural)]
pub enum AuthMethod {
    Password,
    PublicKey,
}

/// The users that may log in, each with the key that was read for them.
pub struct AuthManager {
    #[allow(dead_code)]
    users: HashMap<String, sshkeys::PublicKey>,
}

impl AuthManager {
    /// The number of users.
    pub closed spec fn count(&self) -> nat {
        self.users@.len()
    }

    /// A manager that knows no user.
    pub fn new() -> (m: Self)
        ensures
            m.count() == 0,
    {
        AuthManager { users: HashMap::new() }
    }
}

/// The number that four bytes from `at` on stand for, the first byte
/// counting most.
pub open spec fn be32(b: Seq<u8>, at: int) -> int {
    b[at] as int * 16777216 + b[at + 1] as int * 65536 + b[at + 2] as int * 256 + b[at + 3] as int
}

/// The length of the field that begins at `at`, if a whole field stands
/// there: four bytes that give a length, and as many bytes behind them.
pub open spec fn field_len(b: Seq<u8>, at: int) -> Option<int> {
    if 0 <= at && at + 4 <= b.len() && at + 4 + be32(b, at) <= b.len() {
        Some(be32(b, at))
    } else {
        None
    }
}

/// Whether one of the next `count` fields from `at` on is empty, with whole
/// fields before it.
pub open spec fn has_empty_field(b: Seq<u8>, at: int, count: nat) -> bool
    decreases count,
{
    if count == 0 {
        false
    } else {
        match field_len(b, at) {
            None => false,
            Some(n) => n == 0 || has_empty_field(b, at + 4 + n, (count - 1) as nat),
        }
    }
}

/// The number of fields that hold numbers in a key of the type `kind`: two
/// in an RSA key, four in a DSA key, none in the others.
pub open spec fn number_fields(kind: Seq<char>) -> nat {
    if kind == "ssh-rsa"@ || kind == "ssh-rsa-cert-v01@openssh.com"@ {
        2
    } else if kind == "ssh-dss"@ || kind == "ssh-dss-cert-v01@openssh.com"@ {
        4
    } else {
        0
    }
}

/// Whether the first field of `blob` spells `kind`.
pub open spec fn names_kind(blob: Seq<u8>, kind: Seq<char>) -> bool {
    &&& field_len(blob, 0) == Some(kind.len() as int)
    &&& forall|i: int| 0 <= i < kind.len() ==> blob[4 + i] == #[trigger] kind[i] as u32
}

/// Whether a key of the type `kind` with the blob `blob` has an empty
/// number: the blob names the type, and one of the number fields behind the
/// name is empty.
pub open spec fn has_empty_number(kind: Seq<char>, blob: Seq<u8>) -> bool {
    names_kind(blob, kind) && has_empty_field(blob, 4 + kind.len() as int, number_fields(kind))
}

/// Whether the words of a key can be read without fault: where the second
/// word is base64, its blob has no empty number.
pub open spec fn is_sound(w: Seq<Seq<char>>) -> bool {
    w.len() >= 2 ==> match decode_spec(w[1]) {
        Some(blob) => !has_empty_number(w[0], blob),
        None => true,
    }
}

/// Whether `key` is the text of a key that can be read without fault: words
/// with single blanks between, which are sound.
pub open spec fn is_sound_key(key: Seq<char>) -> bool {
    key == join_spec(words(key), seq![' ']) && is_sound(words(key))
}

/// Whether `key` is the text of a public key, as `sshkeys` reads it.
pub uninterp spec fn key_is_accepted(key: Seq<char>) -> bool;

/// Reads `key` as a public key and says whether it is one.
///
/// Calls `sshkeys::PublicKey::from_string` and drops the key. The contract
/// claims that the call returns on every text that `is_sound_key` admits,
/// and names what it says. That it returns rests on `sshkeys` decoding the
/// second word as `decode_spec` does wherever it decodes it at all: the one
/// place where it reads past the end is an empty number of an RSA or DSA
/// key.
#[verifier::external_body]
fn check_key(key: &str) -> (r: Result<(), sshkeys::Error>)
    requires
        is_sound_key(key@),
    ensures
        r is Ok <==> key_is_accepted(key@),
{
    match sshkeys::PublicKey::from_string(key) {
        Ok(_) => Ok(()),
        Err(e) => Err(e),
    }
}

fn read_be32(b: &Vec<u8>, at: usize) -> (n: u64)
    requires
        at + 4 <= b.len(),
    ensures
        n == be32(b@, at as int),
{
    let b0: u64 = b[at] as u64;
    let b1: u64 = b[at + 1] as u64;
    let b2: u64 = b[at + 2] as u64;
    let b3: u64 = b[at + 3] as u64;
    b0 * 16777216 + b1 * 65536 + b2 * 256 + b3
}

fn read_field_len(b: &Vec<u8>, at: usize) -> (r: Option<usize>)
    requires
        at <= b.len(),
    ensures
        match r {
            Some(n) => field_len(b@, at as int) == Some(n as int) && at + 4 + n <= b.len(),
            None => field_len(b@, at as int) is None,
        },
{
    if b.len() - at < 4 {
        return None;
    }
    let n = read_be32(b, at);
    if n > (b.len() - at - 4) as u64 {
        return None;
    }
    Some(n as usize)
}

fn count_number_fields(kind: &str) -> (n: usize)
    ensures
        n == number_fields(kind@),
{
    if str_eq(kind, "ssh-rsa") || str_eq(kind, "ssh-rsa-cert-v01@openssh.com") {
        2
    } else if str_eq(kind, "ssh-dss") || str_eq(kind, "ssh-dss-cert-v01@openssh.com") {
        4
    } else {
        0
    }
}

fn blob_names_kind(blob: &Vec<u8>, kind: &Vec<char>) -> (r: bool)
    ensures
        r == names_kind(blob@, kind@),
{
    match read_field_len(blob, 0) {
        None => false,
        Some(n) => {
            if n != kind.len() {
                return false;
            }
            let mut i: usize = 0;
            while i < n
                invariant
                    i <= n == kind.len(),
                    4 + n <= blob.len(),
                    forall|k: int| 0 <= k < i ==> blob@[4 + k] == #[trigger] kind@[k] as u32,
                decreases n - i,
            {
                if blob[4 + i] as u32 != kind[i] as u32 {
                    return false;
                }
                i += 1;
            }
            true
        },
    }
}

fn blob_has_empty_field(blob: &Vec<u8>, from: usize, count: usize) -> (r: bool)
    requires
        from <= blob.len(),
    ensures
        r == has_empty_field(blob@, from as int, count as nat),
{
    let mut at: usize = from;
    let mut left: usize = count;
    while left > 0
        invariant
            at <= blob.len(),
            has_empty_field(blob@, from as int, count as nat) == has_empty_field(
                blob@,
                at as int,
                left as nat,
            ),
        decreases left,
    {
        match read_field_len(blob, at) {
            None => {
                return false;
            },
            Some(n) => {
                if n == 0 {
                    return true;
                }
                at = at + 4 + n;
                left -= 1;
            },
        }
    }
    false
}

/// Whether the words of a key can be read without fault.
pub fn words_are_sound(w: &Vec<String>) -> (r: bool)
    ensures
        r == is_sound(views_of(w@)),
{
    if w.len() < 2 {
        return true;
    }
    let kind = chars_of(w[0].as_str());
    let data = chars_of(w[1].as_str());
    assert(views_of(w@)[0] == kind@ && views_of(w@)[1] == data@);
    match decode(&data) {
        None => true,
        Some(blob) => {
            let count = count_number_fields(w[0].as_str());
            if !blob_names_kind(&blob, &kind) {
                return true;
            }
            !blob_has_empty_field(&blob, 4 + kind.len(), count)
        },
    }
}

/// What a line of a key list holds.
pub enum KeyLine {
    /// A user and a key that is accepted.
    Entry(UserView),
    /// Fewer than two words.
    Short,
    /// A key with an empty number.
    Unsound,
    /// A key that is not accepted.
    Refused,
}

/// What the line `line` holds: its first word names the user, and the words
/// behind it, with single blanks between, are the key.
pub open spec fn key_line(line: Seq<char>) -> KeyLine {
    let w = words(line);
    if w.len() < 2 {
        KeyLine::Short
    } else {
        let key = join_spec(w.skip(1), seq![' ']);
        if !is_sound(w.skip(1)) {
            KeyLine::Unsound
        } else if key_is_accepted(key) {
            KeyLine::Entry(UserView { username: w[0], public_key: key })
        } else {
            KeyLine::Refused
        }
    }
}

/// The first line of `text` as it is shown: without the carriage return
/// that stands before its line feed.
pub open spec fn shown_line(text: Seq<char>) -> Seq<char> {
    let n = line_len(text) as int;
    if n < text.len() && n > 0 && text[n - 1] == '\r' {
        text.take(n - 1)
    } else {
        text.take(n)
    }
}

/// The users of a key list, or its first line that holds none, as it is
/// shown, with what it holds instead.
pub open spec fn parse_keys_spec(text: Seq<char>) -> Result<Seq<UserView>, (Seq<char>, KeyLine)>
    decreases text.len(),
    via parse_keys_decreases
{
    if text.len() == 0 {
        Ok(Seq::empty())
    } else {
        match key_line(shown_line(text)) {
            KeyLine::Entry(u) => match parse_keys_spec(after_line(text)) {
                Ok(rest) => Ok(seq![u] + rest),
                Err(e) => Err(e),
            },
            other => Err((shown_line(text), other)),
        }
    }
}

#[via_fn]
proof fn parse_keys_decreases(text: Seq<char>) {
    lemma_line_len_bound(text);
}

/// The users read so far, before what the rest of the text gives.
pub open spec fn users_then(
    users: Seq<UserView>,
    rest: Result<Seq<UserView>, (Seq<char>, KeyLine)>,
) -> Result<Seq<UserView>, (Seq<char>, KeyLine)> {
    match rest {
        Ok(more) => Ok(users + more),
        Err(e) => Err(e),
    }
}

/// Whether `r` is what reading a key list gives whose users, or whose first
/// faulty line, are `expected`.
pub open spec fn is_key_list_result(
    r: Result<Vec<User>, AuthError>,
    expected: Result<Seq<UserView>, (Seq<char>, KeyLine)>,
) -> bool {
    match expected {
        Ok(users) => r matches Ok(v) && user_views(v@) == users,
        Err((line, KeyLine::Short)) => r matches Err(AuthError::Parse(m)) && m@
            == "Invalid key line: "@ + line,
        Err((_, KeyLine::Unsound)) => r matches Err(AuthError::InvalidKey),
        Err((_, KeyLine::Refused)) => r matches Err(AuthError::Key(_)),
        Err((_, KeyLine::Entry(_))) => false,
    }
}

/// Reads a list of authorized keys.
///
/// Every line names a user and a key. A line with fewer than two words ends
/// the reading with a parse error that shows the line, a key with an empty
/// number with an invalid key, and a key that is not accepted with the
/// error of the key reader.
pub fn parse_keys(content: &str) -> (r: Result<Vec<User>, AuthError>)
    ensures
        is_key_list_result(r, parse_keys_spec(content@)),
{
    let chars = chars_of(content);
    let mut users: Vec<User> = Vec::new();
    let mut i: usize = 0;
    assert(chars@.skip(0) =~= chars@);
    assert(user_views(users@) =~= Seq::<UserView>::empty());
    while i < chars.len()
        invariant
            i <= chars.len(),
            chars@ == content@,
            users_then(user_views(users@), parse_keys_spec(chars@.skip(i as int)))
                == parse_keys_spec(chars@),
        decreases chars.len() - i,
    {
        let ghost rest = chars@.skip(i as int);
        let ghost before = user_views(users@);
        let end = line_end(&chars, i);
        let shown_end = if end < chars.len() && end > i && chars[end - 1] == '\r' {
            end - 1
        } else {
            end
        };
        proof {
            if end > i {
                assert(rest[end - i - 1] == chars@[end as int - 1]);
            }
            assert(shown_line(rest) =~= chars@.subrange(i as int, shown_end as int));
        }
        let mut w = split_words(&chars, i, shown_end);
        let ghost all = views_of(w@);
        if w.len() < 2 {
            let mut msg = "Invalid key line: ".to_owned();
            push_range(&mut msg, &chars, i, shown_end);
            return Err(AuthError::Parse(msg));
        }
        let name = w.remove(0);
        assert(views_of(w@) =~= all.skip(1));
        if !words_are_sound(&w) {
            return Err(AuthError::InvalidKey);
        }
        let key = join(&w, " ");
        proof {
            reveal_strlit(" ");
            assert(" "@ =~= seq![' ']);
            lemma_words_nonempty(shown_line(rest));
            assert forall|k: int| 0 <= k < all.skip(1).len() implies is_word(
                #[trigger] all.skip(1)[k],
            ) by {
                assert(all.skip(1)[k] == all[k + 1]);
            }
            lemma_words_of_join(all.skip(1));
        }
        let ghost key_text = key@;
        let verdict = check_key(key.as_str());
        match User::from_verdict(name, key, verdict) {
            Err(e) => {
                return Err(e);
            },
            Ok(user) => {
                users.push(user);
            },
        }
        proof {
            let u = UserView { username: all[0], public_key: key_text };
            assert(user_views(users@) =~= before.push(u));
            assert(key_line(shown_line(rest)) == KeyLine::Entry(u));
            match parse_keys_spec(after_line(rest)) {
                Ok(more) => {
                    assert(before + (seq![u] + more) =~= before.push(u) + more);
                },
                Err(_) => {},
            }
        }
        if end < chars.len() {
            assert(after_line(rest) =~= chars@.skip(end as int + 1));
            i = end + 1;
        } else {
            assert(after_line(rest) =~= chars@.skip(end as int));
            i = end;
        }
    }
    assert(user_views(users@) + Seq::<UserView>::empty() =~= user_views(users@));
    Ok(users)
}

} // verus!
