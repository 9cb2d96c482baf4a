//! Accounts: phone numbers, PINs and the refusals of the account endpoints.
//!
//! A phone number is matched by its last nine digits, so `+254705306867`,
//! `254705306867` and `0705306867` all name the same account. A PIN is four
//! digits, stored as the SHA-256 of the PIN followed by a random salt.

use vstd::prelude::*;
use crate::ids::{is_object_id, check_object_id};
use crate::text::{str_eq, concat};
use crate::posts::{is_blank, blank};
use crate::text::is_digit;

verus! {

/// The ASCII digits of `s`, in order.
pub open spec fn digits_of(s: Seq<char>) -> Seq<char> {
    s.filter(|c: char| is_digit(c))
}

/// The last nine digits of a phone number: its digits, without a leading
/// trunk `0`, cut to the last nine.
pub open spec fn spec_normalize_phone(phone: Seq<char>) -> Seq<char> {
    let d = digits_of(phone);
    let t = if d.len() > 0 && d[0] == '0' { d.drop_first() } else { d };
    if t.len() > 9 { t.skip(t.len() - 9) } else { t }
}

/// The digits of `s` as a string.
pub fn digits_only(s: &str) -> (r: String)
    ensures
        r@ == digits_of(s@),
{
    let n = s.unicode_len();
    let mut r = String::new();
    let mut i: usize = 0;
    while i < n
        invariant
            n == s@.len(),
            i <= n,
            r@ == digits_of(s@.take(i as int)),
        decreases n - i,
    {
        let c = s.get_char(i);
        proof {
            reveal_with_fuel(Seq::<_>::filter, 1);
            assert(s@.take(i + 1).drop_last() =~= s@.take(i as int));
            assert(s@.take(i + 1).last() == c);
        }
        if '0' <= c && c <= '9' {
            r.push(c);
        }
        i = i + 1;
    }
    proof {
        assert(s@.take(n as int) =~= s@);
    }
    r
}

/// Normalizes a phone number to its last nine digits (see
/// `spec_normalize_phone`).
pub fn normalize_phone(phone: &str) -> (r: String)
    ensures
        r@ == spec_normalize_phone(phone@),
{
    let d = digits_only(phone);
    let n = d.as_str().unicode_len();
    let start: usize = if n > 0 && d.as_str().get_char(0) == '0' { 1 } else { 0 };
    let len = n - start;
    let from: usize = if len > 9 { start + (len - 9) } else { start };
    let mut r = String::new();
    let mut i: usize = from;
    while i < n
        invariant
            from <= i <= n,
            n == d@.len(),
            r@ == d@.subrange(from as int, i as int),
        decreases n - i,
    {
        r.push(d.as_str().get_char(i));
        proof {
            assert(r@ =~= d@.subrange(from as int, i + 1));
        }
        i = i + 1;
    }
    proof {
        let dd = d@;
        let t = if dd.len() > 0 && dd[0] == '0' { dd.drop_first() } else { dd };
        if t.len() > 9 {
            assert(t.skip(t.len() - 9) =~= dd.subrange(from as int, n as int));
        } else {
            assert(t =~= dd.subrange(from as int, n as int));
        }
    }
    r
}

proof fn lemma_digits_of_digits(s: Seq<char>)
    requires
        forall|i: int| 0 <= i < s.len() ==> is_digit(#[trigger] s[i]),
    ensures
        digits_of(s) == s,
    decreases s.len(),
{
    reveal_with_fuel(Seq::<_>::filter, 1);
    if s.len() > 0 {
        lemma_digits_of_digits(s.drop_last());
        assert(s.drop_last().push(s.last()) =~= s);
    }
}

/// Normalizing is idempotent on the numbers it produces that do not start
/// with `0`: such a number normalizes to itself, so every spelling of it
/// matches the stored one the same way.
pub proof fn law_normalize_phone_idempotent(phone: Seq<char>)
    requires
        !(spec_normalize_phone(phone).len() > 0 && spec_normalize_phone(phone)[0] == '0'),
    ensures
        spec_normalize_phone(spec_normalize_phone(phone)) == spec_normalize_phone(phone),
{
    let n = spec_normalize_phone(phone);
    let d = digits_of(phone);
    let t = if d.len() > 0 && d[0] == '0' { d.drop_first() } else { d };
    assert forall|i: int| 0 <= i < d.len() implies is_digit(#[trigger] d[i]) by {
        phone.lemma_filter_contains_rev(|c: char| is_digit(c), d[i]);
        assert(d.contains(d[i]));
    }
    assert forall|i: int| 0 <= i < t.len() implies is_digit(#[trigger] t[i]) by {
        if d.len() > 0 && d[0] == '0' {
            assert(t[i] == d[i + 1]);
        }
    }
    assert forall|i: int| 0 <= i < n.len() implies is_digit(#[trigger] n[i]) by {
        if t.len() > 9 {
            assert(n[i] == t[i + t.len() - 9]);
        }
    }
    lemma_digits_of_digits(n);
    assert(n.len() <= 9);
}

/// The pattern that finds a stored phone number by its last nine digits:
/// `705306867$`.
pub fn phone_pattern(phone: &str) -> (r: String)
    ensures
        r@ == spec_normalize_phone(phone@) + "$"@,
{
    let mut r = normalize_phone(phone);
    r.append("$");
    r
}

/// A PIN: exactly four ASCII digits.
pub open spec fn is_valid_pin(pin: Seq<char>) -> bool {
    pin.len() == 4 && forall|i: int| 0 <= i < 4 ==> is_digit(#[trigger] pin[i])
}

/// Whether `pin` is a valid PIN.
pub fn valid_pin(pin: &str) -> (r: bool)
    ensures
        r == is_valid_pin(pin@),
{
    if pin.unicode_len() != 4 {
        return false;
    }
    let mut i: usize = 0;
    while i < 4
        invariant
            pin@.len() == 4,
            i <= 4,
            forall|j: int| 0 <= j < i ==> is_digit(#[trigger] pin@[j]),
        decreases 4 - i,
    {
        let c = pin.get_char(i);
        if !('0' <= c && c <= '9') {
            return false;
        }
        i = i + 1;
    }
    true
}

/// The SHA-256 digest of the UTF-8 bytes of a text.
pub uninterp spec fn sha256_digest(text: Seq<char>) -> Seq<u8>;

/// Calls `sha2::Sha256::digest` on the UTF-8 bytes of `text`. The digest is
/// named `sha256_digest` of the text; the crate gives it 32 bytes.
#[verifier::external_body]
fn sha256_of_text(text: &str) -> (r: Vec<u8>)
    ensures
        r@ == sha256_digest(text@),
        r@.len() == 32,
{
    <sha2::Sha256 as sha2::Digest>::digest(text.as_bytes()).to_vec()
}

/// The lower-case hexadecimal digit of `n < 16`.
pub open spec fn hex_digit(n: u8) -> char {
    if n < 10 { ((n as u32) + 48) as char } else { ((n as u32) + 87) as char }
}

/// The lower-case hexadecimal text of some bytes, two digits per byte.
pub open spec fn lower_hex_text(b: Seq<u8>) -> Seq<char>
    decreases b.len(),
{
    if b.len() == 0 {
        Seq::empty()
    } else {
        lower_hex_text(b.drop_last()) + seq![hex_digit(b.last() / 16), hex_digit(b.last() % 16)]
    }
}

fn hex_char(n: u8) -> (c: char)
    requires
        n < 16,
    ensures
        c == hex_digit(n),
{
    if n < 10 { ((n + 48) as u8) as char } else { ((n + 87) as u8) as char }
}

/// Writes bytes as lower-case hexadecimal text.
pub fn to_lower_hex(b: &Vec<u8>) -> (s: String)
    ensures
        s@ == lower_hex_text(b@),
{
    let mut s = String::new();
    let mut i: usize = 0;
    while i < b.len()
        invariant
            i <= b@.len(),
            s@ == lower_hex_text(b@.take(i as int)),
        decreases b.len() - i,
    {
        let x = b[i];
        proof {
            assert(b@.take(i + 1).drop_last() =~= b@.take(i as int));
            assert(b@.take(i + 1).last() == x);
        }
        s.push(hex_char(x / 16));
        s.push(hex_char(x % 16));
        proof {
            assert(s@ =~= lower_hex_text(b@.take(i + 1)));
        }
        i = i + 1;
    }
    proof {
        assert(b@.take(b@.len() as int) =~= b@);
    }
    s
}

/// The stored form of a PIN with its salt: the lower-case hexadecimal
/// SHA-256 digest of the PIN followed by the salt.
pub open spec fn spec_pin_hash(pin: Seq<char>, salt: Seq<char>) -> Seq<char> {
    lower_hex_text(sha256_digest(pin + salt))
}

/// Hashes a PIN with its salt.
pub fn hash_pin(pin: &str, salt: &str) -> (h: String)
    ensures
        h@ == spec_pin_hash(pin@, salt@),
        h@.len() == 64,
{
    let text = concat(pin, salt);
    let digest = sha256_of_text(text.as_str());
    let h = to_lower_hex(&digest);
    proof {
        lemma_hex_len(digest@);
    }
    h
}

proof fn lemma_hex_len(b: Seq<u8>)
    ensures
        lower_hex_text(b).len() == 2 * b.len(),
    decreases b.len(),
{
    if b.len() > 0 {
        lemma_hex_len(b.drop_last());
    }
}

/// A letter or digit of ASCII.
pub open spec fn is_ascii_alphanumeric(c: char) -> bool {
    ('0' <= c && c <= '9') || ('a' <= c && c <= 'z') || ('A' <= c && c <= 'Z')
}

/// The number of characters in a PIN's salt.
pub const SALT_LEN: usize = 16;

/// Draws `len` characters with `rand`'s `Alphanumeric` distribution from the
/// thread's generator: each a letter or digit of ASCII (the distribution
/// picks from those 62). Which ones is left to chance.
#[verifier::external_body]
pub(crate) fn generate_salt(len: usize) -> (s: String)
    ensures
        s@.len() == len,
        forall|i: int| 0 <= i < len ==> is_ascii_alphanumeric(#[trigger] s@[i]),
{
    rand::Rng::sample_iter(rand::thread_rng(), &rand::distributions::Alphanumeric).take(len).map(char::from).collect()
}

/// How an account endpoint refuses a request: the HTTP status and the
/// message.
#[derive(Debug, Clone)]
pub struct AuthRefusal {
    pub status: u16,
    pub message: String,
}

/// `r` refuses with `status` and `msg`.
pub open spec fn refuses<T>(r: Result<T, AuthRefusal>, status: u16, msg: Seq<char>) -> bool {
    r matches Err(e) && e.status == status && e.message@ == msg
}

fn refusal(status: u16, msg: &str) -> (e: AuthRefusal)
    ensures
        e.status == status && e.message@ == msg@,
{
    AuthRefusal { status, message: String::from_str(msg) }
}

/// What setting a PIN stores: the hash and the salt it was made with.
#[derive(Debug, Clone)]
pub struct PinRecord {
    pub pin_hash: String,
    pub pin_salt: String,
}

/// Decides a request to set a PIN, with `salt` freshly drawn: the user id
/// must be a well-formed object id and the PIN four digits; the stored
/// record is then the PIN's hash with that salt.
pub fn decide_set_pin(user_id: &str, pin: &str, salt: &str) -> (r: Result<PinRecord, AuthRefusal>)
    ensures
        !is_object_id(user_id@) ==> refuses(r, 400, "Invalid user ID format"@),
        is_object_id(user_id@) && !is_valid_pin(pin@) ==> refuses(r, 400, "PIN must be exactly 4 digits"@),
        is_object_id(user_id@) && is_valid_pin(pin@) ==> (r matches Ok(rec)
            && rec.pin_hash@ == spec_pin_hash(pin@, salt@) && rec.pin_salt@ == salt@),
{
    if check_object_id(user_id).is_err() {
        return Err(refusal(400, "Invalid user ID format"));
    }
    if !valid_pin(pin) {
        return Err(refusal(400, "PIN must be exactly 4 digits"));
    }
    Ok(PinRecord { pin_hash: hash_pin(pin, salt), pin_salt: String::from_str(salt) })
}

/// Sets a PIN with a freshly drawn salt (see `decide_set_pin`): the salt is
/// sixteen ASCII letters and digits, and the stored hash is the PIN's hash
/// with it.
pub fn set_pin_record(user_id: &str, pin: &str) -> (r: Result<PinRecord, AuthRefusal>)
    ensures
        !is_object_id(user_id@) ==> refuses(r, 400, "Invalid user ID format"@),
        is_object_id(user_id@) && !is_valid_pin(pin@) ==> refuses(r, 400, "PIN must be exactly 4 digits"@),
        is_object_id(user_id@) && is_valid_pin(pin@) ==> (r matches Ok(rec)
            && rec.pin_hash@ == spec_pin_hash(pin@, rec.pin_salt@)
            && rec.pin_salt@.len() == SALT_LEN
            && forall|i: int| 0 <= i < SALT_LEN ==> is_ascii_alphanumeric(#[trigger] rec.pin_salt@[i])),
{
    let salt = generate_salt(SALT_LEN);
    decide_set_pin(user_id, pin, salt.as_str())
}

/// An account as far as PIN login reads it.
#[derive(Debug, Clone)]
pub struct PinAccount {
    pub is_pin_enabled: bool,
    pub pin_hash: Option<String>,
    pub pin_salt: Option<String>,
}

/// The text of an optional stored field, empty when absent.
pub open spec fn or_empty(o: Option<String>) -> Seq<char> {
    match o {
        Some(s) => s@,
        None => ""@,
    }
}

/// Decides a PIN login, given the account found by phone (`None`: no
/// account): the account must exist and have a PIN, and the PIN hashed
/// with the stored salt must equal the stored hash (a missing salt or hash
/// reads as empty).
pub fn decide_pin_login(account: &Option<PinAccount>, pin: &str) -> (r: Result<(), AuthRefusal>)
    ensures
        account is None ==> refuses(r, 404, "User not found"@),
        account matches Some(a) && !a.is_pin_enabled ==> refuses(r, 400, "PIN not set for this account"@),
        account matches Some(a) && a.is_pin_enabled
            && spec_pin_hash(pin@, or_empty(a.pin_salt)) != or_empty(a.pin_hash) ==> refuses(r, 401, "Invalid PIN"@),
        account matches Some(a) && a.is_pin_enabled
            && spec_pin_hash(pin@, or_empty(a.pin_salt)) == or_empty(a.pin_hash) ==> r is Ok,
{
    let a = match account {
        None => return Err(refusal(404, "User not found")),
        Some(a) => a,
    };
    if !a.is_pin_enabled {
        return Err(refusal(400, "PIN not set for this account"));
    }
    let salt = match &a.pin_salt {
        Some(s) => s.clone(),
        None => String::from_str(""),
    };
    let expected = match &a.pin_hash {
        Some(h) => h.clone(),
        None => String::from_str(""),
    };
    let provided = hash_pin(pin, salt.as_str());
    if !str_eq(provided.as_str(), expected.as_str()) {
        return Err(refusal(401, "Invalid PIN"));
    }
    Ok(())
}

/// A PIN that was set logs in: an account whose stored record came from
/// setting `pin` accepts a login with the same `pin`.
pub proof fn law_set_pin_then_login(pin: Seq<char>, salt: Seq<char>, rec: PinRecord, account: PinAccount)
    requires
        rec.pin_hash@ == spec_pin_hash(pin, salt),
        rec.pin_salt@ == salt,
        account.is_pin_enabled,
        account.pin_hash == Some(rec.pin_hash),
        account.pin_salt == Some(rec.pin_salt),
    ensures
        spec_pin_hash(pin, or_empty(account.pin_salt)) == or_empty(account.pin_hash),
{
}

proof fn lemma_hex_digit_injective(a: u8, b: u8)
    requires
        a < 16,
        b < 16,
        hex_digit(a) == hex_digit(b),
    ensures
        a == b,
{
    let ca = hex_digit(a);
    let cb = hex_digit(b);
    assert((ca as u32) == (if a < 10 { (a as u32) + 48 } else { (a as u32) + 87 }));
    assert((cb as u32) == (if b < 10 { (b as u32) + 48 } else { (b as u32) + 87 }));
}

/// Different bytes are written as different hexadecimal texts.
proof fn lemma_lower_hex_text_injective(a: Seq<u8>, b: Seq<u8>)
    requires
        lower_hex_text(a) == lower_hex_text(b),
    ensures
        a == b,
    decreases a.len(),
{
    lemma_hex_len(a);
    lemma_hex_len(b);
    if a.len() > 0 {
        let ta = lower_hex_text(a);
        let pa = lower_hex_text(a.drop_last());
        let pb = lower_hex_text(b.drop_last());
        lemma_hex_len(a.drop_last());
        lemma_hex_len(b.drop_last());
        let n = ta.len() as int;
        assert(ta[n - 2] == hex_digit(a.last() / 16));
        assert(ta[n - 1] == hex_digit(a.last() % 16));
        assert(lower_hex_text(b)[n - 2] == hex_digit(b.last() / 16));
        assert(lower_hex_text(b)[n - 1] == hex_digit(b.last() % 16));
        lemma_hex_digit_injective(a.last() / 16, b.last() / 16);
        lemma_hex_digit_injective(a.last() % 16, b.last() % 16);
        assert(pa =~= ta.take(n - 2));
        assert(pb =~= lower_hex_text(b).take(n - 2));
        lemma_lower_hex_text_injective(a.drop_last(), b.drop_last());
        assert(a =~= a.drop_last().push(a.last()));
        assert(b =~= b.drop_last().push(b.last()));
    }
}

/// Another PIN is refused: an account whose stored record came from setting
/// `pin` refuses a login with `other` whenever the two give different
/// SHA-256 digests with the salt, so `decide_pin_login` answers 401
/// "Invalid PIN". (Two PINs that differ can share a digest only by a
/// collision of SHA-256, which nothing here rules out.)
pub proof fn law_other_pin_refused(pin: Seq<char>, other: Seq<char>, salt: Seq<char>, rec: PinRecord, account: PinAccount)
    requires
        rec.pin_hash@ == spec_pin_hash(pin, salt),
        rec.pin_salt@ == salt,
        account.is_pin_enabled,
        account.pin_hash == Some(rec.pin_hash),
        account.pin_salt == Some(rec.pin_salt),
        sha256_digest(other + salt) != sha256_digest(pin + salt),
    ensures
        spec_pin_hash(other, or_empty(account.pin_salt)) != or_empty(account.pin_hash),
{
    if spec_pin_hash(other, salt) == spec_pin_hash(pin, salt) {
        lemma_lower_hex_text_injective(sha256_digest(other + salt), sha256_digest(pin + salt));
    }
}

/// The refusal of a new phone number already held by another account.
pub open spec fn held_by_another(user_id: Seq<char>, owner: Option<String>) -> bool {
    owner matches Some(o) && crate::ids::lower_hex(o@) != crate::ids::lower_hex(user_id)
}

/// Decides the last check of a change of phone number, given the id of the
/// account found holding the number (matched by its last nine digits), if
/// any: a number held by another account is refused with 409; one held by
/// the same account, or by none, may be stored. Ids are compared as object
/// ids, whatever the case of their letters.
pub fn decide_phone_owner(user_id: &str, owner: &Option<String>) -> (r: Result<(), AuthRefusal>)
    ensures
        held_by_another(user_id@, *owner) ==> refuses(r, 409, "Phone number is already in use by another account"@),
        !held_by_another(user_id@, *owner) ==> r is Ok,
{
    match owner {
        Some(o) => {
            if !crate::ids::same_object_id(o.as_str(), user_id) {
                return Err(refusal(409, "Phone number is already in use by another account"));
            }
            Ok(())
        },
        None => Ok(()),
    }
}

/// Decides a registration, given whether the phone number (by its last
/// nine digits) or the username is already taken.
pub fn decide_registration(phone_taken: bool, username_taken: bool) -> (r: Result<(), AuthRefusal>)
    ensures
        phone_taken ==> refuses(r, 409, "Phone number already registered"@),
        !phone_taken && username_taken ==> refuses(r, 409, "Username already taken"@),
        !phone_taken && !username_taken ==> r is Ok,
{
    if phone_taken {
        return Err(refusal(409, "Phone number already registered"));
    }
    if username_taken {
        return Err(refusal(409, "Username already taken"));
    }
    Ok(())
}

/// A character a phone number may be written with: a digit, `+`, a space,
/// `-`, `(` or `)`.
pub open spec fn is_phone_char(c: char) -> bool {
    is_digit(c) || c == '+' || c == ' ' || c == '-' || c == '(' || c == ')'
}

/// The first character of `s` that is not white space, if any.
pub open spec fn first_non_blank(s: Seq<char>) -> Option<char>
    decreases s.len(),
{
    if s.len() == 0 {
        None
    } else if crate::posts::is_white_space(s[0]) {
        first_non_blank(s.drop_first())
    } else {
        Some(s[0])
    }
}

/// The stored form of a phone number: its digits, after a `+` when the
/// number (leading white space aside) starts with one.
pub open spec fn spec_clean_phone(raw: Seq<char>) -> Seq<char> {
    if first_non_blank(raw) == Some('+') { "+"@ + digits_of(raw) } else { digits_of(raw) }
}

/// The outcome of changing a user's phone number, in the order the checks
/// are made: a number that is not blank, a well-formed user id, 9 to 15
/// digits, and only digits, `+`, spaces, `-` and parentheses. On success
/// the result is the number's stored form.
pub open spec fn spec_phone_update(raw: Seq<char>, user_id: Seq<char>, r: Result<String, AuthRefusal>) -> bool {
    if is_blank(raw) {
        refuses(r, 400, "Phone number is required"@)
    } else if !is_object_id(user_id) {
        refuses(r, 400, "Invalid user ID format"@)
    } else if digits_of(raw).len() < 9 || digits_of(raw).len() > 15 {
        refuses(r, 400, "Phone number must contain between 9 and 15 digits"@)
    } else if !(forall|i: int| 0 <= i < raw.len() ==> is_phone_char(#[trigger] raw[i])) {
        refuses(r, 400, "Phone number contains invalid characters"@)
    } else {
        r matches Ok(p) && p@ == spec_clean_phone(raw)
    }
}

fn starts_with_plus(s: &str) -> (r: bool)
    ensures
        r == (first_non_blank(s@) == Some('+')),
{
    let n = s.unicode_len();
    let mut i: usize = 0;
    assert(s@.skip(0) =~= s@);
    while i < n
        invariant
            n == s@.len(),
            i <= n,
            first_non_blank(s@.skip(i as int)) == first_non_blank(s@),
        decreases n - i,
    {
        let c = s.get_char(i);
        proof {
            assert(s@.skip(i as int)[0] == c);
            assert(s@.skip(i as int).drop_first() =~= s@.skip(i + 1));
        }
        if !crate::posts::white_space_char(c) {
            return c == '+';
        }
        i = i + 1;
    }
    proof {
        assert(s@.skip(n as int).len() == 0);
    }
    false
}

/// Decides a change of phone number (see `spec_phone_update`).
pub fn decide_phone_update(raw: &str, user_id: &str) -> (r: Result<String, AuthRefusal>)
    ensures
        spec_phone_update(raw@, user_id@, r),
{
    if blank(raw) {
        return Err(refusal(400, "Phone number is required"));
    }
    if check_object_id(user_id).is_err() {
        return Err(refusal(400, "Invalid user ID format"));
    }
    let d = digits_only(raw);
    let count = d.as_str().unicode_len();
    if count < 9 || count > 15 {
        return Err(refusal(400, "Phone number must contain between 9 and 15 digits"));
    }
    let n = raw.unicode_len();
    let mut i: usize = 0;
    while i < n
        invariant
            n == raw@.len(),
            i <= n,
            !is_blank(raw@),
            is_object_id(user_id@),
            9 <= digits_of(raw@).len() <= 15,
            forall|j: int| 0 <= j < i ==> is_phone_char(#[trigger] raw@[j]),
        decreases n - i,
    {
        let c = raw.get_char(i);
        if !(('0' <= c && c <= '9') || c == '+' || c == ' ' || c == '-' || c == '(' || c == ')') {
            assert(!is_phone_char(raw@[i as int]));
            return Err(refusal(400, "Phone number contains invalid characters"));
        }
        i = i + 1;
    }
    if starts_with_plus(raw) {
        proof {
            reveal_strlit("+");
        }
        Ok(concat("+", d.as_str()))
    } else {
        Ok(d)
    }
}

/// The claims of a login token: the user, and an expiry a day after `now`
/// (seconds since the epoch).
#[derive(Debug, Clone)]
pub struct Claims {
    pub sub: String,
    pub username: String,
    pub phone: String,
    pub exp: i64,
}

/// The claims of a token issued at `now`.
pub fn token_claims(user_id: &str, username: &str, phone: &str, now: i64) -> (c: Claims)
    requires
        now <= i64::MAX - 86400,
    ensures
        c.sub@ == user_id@ && c.username@ == username@ && c.phone@ == phone@,
        c.exp == now + 86400,
{
    Claims {
        sub: String::from_str(user_id),
        username: String::from_str(username),
        phone: String::from_str(phone),
        exp: now + 86400,
    }
}

/// Decides a request that addresses a user by id, given whether the user
/// was found (or, for an update, matched): a malformed id is a bad request,
/// a missing user is not found.
pub fn decide_user_by_id(user_id: &str, found: bool) -> (r: Result<(), AuthRefusal>)
    ensures
        !is_object_id(user_id@) ==> refuses(r, 400, "Invalid user ID format"@),
        is_object_id(user_id@) && !found ==> refuses(r, 404, "User not found"@),
        is_object_id(user_id@) && found ==> r is Ok,
{
    if check_object_id(user_id).is_err() {
        return Err(refusal(400, "Invalid user ID format"));
    }
    if !found {
        return Err(refusal(404, "User not found"));
    }
    Ok(())
}

/// Decides a request that finds a user by phone or name: a missing user is
/// not found.
pub fn decide_account_found(found: bool) -> (r: Result<(), AuthRefusal>)
    ensures
        !found ==> refuses(r, 404, "User not found"@),
        found ==> r is Ok,
{
    if !found {
        return Err(refusal(404, "User not found"));
    }
    Ok(())
}

/// Asks for a password reset for a username.
#[derive(Debug, Clone)]
pub struct ForgotPasswordRequest {
    pub username: String,
}

/// A one-time code sent back to confirm a reset.
#[derive(Debug, Clone)]
pub struct VerifyOTPRequest {
    pub user_id: String,
    pub otp: String,
    pub reset_token: String,
}

/// A new password for a confirmed reset.
#[derive(Debug, Clone)]
pub struct ResetPasswordRequest {
    pub user_id: String,
    pub reset_token: String,
    pub new_password: String,
}

/// The answer to a reset request.
#[derive(Debug, Clone)]
pub struct ForgotPasswordResponse {
    pub success: bool,
    pub message: String,
    pub user_id: Option<String>,
    pub reset_token: Option<String>,
}

/// The answer to a one-time code.
#[derive(Debug, Clone)]
pub struct VerifyOTPResponse {
    pub success: bool,
    pub message: String,
}

/// The answer to a new password.
#[derive(Debug, Clone)]
pub struct ResetPasswordResponse {
    pub success: bool,
    pub message: String,
}

impl ForgotPasswordRequest {
    /// A username has at least three characters.
    pub fn validate(&self) -> (r: Result<(), String>)
        ensures
            r is Ok <==> self.username@.len() >= 3,
            r matches Err(m) ==> m@ == "Username must be at least 3 characters"@,
    {
        if self.username.unicode_len() < 3 {
            return Err(String::from_str("Username must be at least 3 characters"));
        }
        Ok(())
    }
}

impl VerifyOTPRequest {
    /// A one-time code has exactly six characters.
    pub fn validate(&self) -> (r: Result<(), String>)
        ensures
            r is Ok <==> self.otp@.len() == 6,
            r matches Err(m) ==> m@ == "OTP must be 6 digits"@,
    {
        if self.otp.unicode_len() != 6 {
            return Err(String::from_str("OTP must be 6 digits"));
        }
        Ok(())
    }
}

impl ResetPasswordRequest {
    /// A new password has at least six characters.
    pub fn validate(&self) -> (r: Result<(), String>)
        ensures
            r is Ok <==> self.new_password@.len() >= 6,
            r matches Err(m) ==> m@ == "Password must be at least 6 characters"@,
    {
        if self.new_password.unicode_len() < 6 {
            return Err(String::from_str("Password must be at least 6 characters"));
        }
        Ok(())
    }
}

} // verus!
