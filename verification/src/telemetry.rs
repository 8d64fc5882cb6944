//! Usage reports: when one is due, and the pseudonym of the device that sends it.
use crate::text::chars;
use crate::text::compose;
use crate::text::search;
use vstd::prelude::*;

verus! {

/// How long after a report no other is sent: 23 hours, in seconds.
pub const PING_INTERVAL_SECS: u64 = 82_800;

/// Whether a report is due.
///
/// It is where there is an address to send it to, the user has not opted out by the environment
/// (`disabled`, which is "1" then) nor by the configuration (`enabled`), and the last one is not
/// known to have been sent within the interval.
pub open spec fn ping_due(
    has_url: bool,
    disabled: Seq<char>,
    enabled: Option<bool>,
    elapsed: Option<u64>,
) -> bool {
    &&& has_url
    &&& disabled != "1"@
    &&& enabled != Some(false)
    &&& !(elapsed is Some && elapsed->0 < PING_INTERVAL_SECS)
}

/// Whether a report is due: see `ping_due`.
pub fn should_ping(
    has_url: bool,
    disabled: &str,
    enabled: Option<bool>,
    elapsed_secs: Option<u64>,
) -> (r: bool)
    ensures
        r == ping_due(has_url, disabled@, enabled, elapsed_secs),
{
    if !has_url || chars::same_str(disabled, "1") {
        return false;
    }
    match enabled {
        Some(on) => {
            if !on {
                return false;
            }
        },
        None => {},
    }
    match elapsed_secs {
        Some(secs) => secs >= PING_INTERVAL_SECS,
        None => true,
    }
}

/// Either way of opting out is enough, whatever else holds.
pub proof fn law_opt_out(
    has_url: bool,
    disabled: Seq<char>,
    enabled: Option<bool>,
    elapsed: Option<u64>,
)
    ensures
        !ping_due(has_url, "1"@, enabled, elapsed),
        !ping_due(has_url, disabled, Some(false), elapsed),
        !ping_due(false, disabled, enabled, elapsed),
{
}

/// A hexadecimal digit.
pub open spec fn hex_digit(d: nat) -> char {
    if d < 10 {
        (48 + d) as char
    } else {
        (87 + d) as char
    }
}

/// Bytes in hexadecimal, two lower-case digits each.
pub open spec fn hex(bytes: Seq<u8>) -> Seq<char>
    decreases bytes.len(),
{
    if bytes.len() == 0 {
        Seq::empty()
    } else {
        hex(bytes.drop_last()).push(hex_digit((bytes.last() / 16) as nat)).push(
            hex_digit((bytes.last() % 16) as nat),
        )
    }
}

fn digit_of(d: u8) -> (r: char)
    requires
        d < 16,
    ensures
        r == hex_digit(d as nat),
{
    if d < 10 {
        (48 + d) as char
    } else {
        (87 + d) as char
    }
}

/// Writes bytes in hexadecimal.
pub fn to_hex(bytes: &[u8]) -> (r: String)
    ensures
        r@ == hex(bytes@),
{
    let mut out: Vec<char> = Vec::new();
    let mut i: usize = 0;
    assert(out@ == hex(bytes@.take(0)));
    while i < bytes.len()
        invariant
            i <= bytes@.len(),
            out@ == hex(bytes@.take(i as int)),
        decreases bytes@.len() - i,
    {
        assert(bytes@.take(i + 1).drop_last() == bytes@.take(i as int));
        out.push(digit_of(bytes[i] / 16));
        out.push(digit_of(bytes[i] % 16));
        i += 1;
    }
    assert(bytes@.take(bytes@.len() as int) == bytes@);
    chars::string_of(out.as_slice())
}

/// Bytes in hexadecimal are twice as many characters, all of them hexadecimal digits.
pub proof fn law_hex(bytes: Seq<u8>)
    ensures
        hex(bytes).len() == 2 * bytes.len(),
        forall|i: int| 0 <= i < hex(bytes).len() ==> chars::is_hex(#[trigger] hex(bytes)[i]),
    decreases bytes.len(),
{
    if bytes.len() > 0 {
        law_hex(bytes.drop_last());
    }
}

/// The SHA-256 digest of some bytes, by `sha2::Sha256`.
pub uninterp spec fn sha256_of(data: Seq<u8>) -> Seq<u8>;

/// Computes the SHA-256 digest of some bytes, by `sha2::Digest::digest` on `sha2::Sha256`: a
/// function of the bytes alone, 32 bytes long.
#[verifier::external_body]
fn sha256(data: &[u8]) -> (r: Vec<u8>)
    ensures
        r@ == sha256_of(data@),
        r@.len() == 32,
{
    <sha2::Sha256 as sha2::Digest>::digest(data).to_vec()
}

/// What the pseudonym of a device is made of.
pub open spec fn device_text(
    salt: Seq<char>,
    hostname: Seq<char>,
    username: Seq<char>,
) -> Seq<char> {
    salt + ":"@ + hostname + ":"@ + username
}

/// The pseudonym of a device: the digest, in hexadecimal, of its salt, its name and its user's name.
pub open spec fn device_hash(
    salt: Seq<char>,
    hostname: Seq<char>,
    username: Seq<char>,
) -> Seq<char> {
    hex(sha256_of(vstd::utf8::encode_utf8(device_text(salt, hostname, username))))
}

/// The pseudonym of a device by its salt, its name and its user's name.
pub fn hash_device(salt: &str, hostname: &str, username: &str) -> (r: String)
    ensures
        r@ == device_hash(salt@, hostname@, username@),
        r@.len() == 64,
        forall|i: int| 0 <= i < r@.len() ==> chars::is_hex(#[trigger] r@[i]),
{
    let mut text = salt.to_string();
    text.append(":");
    text.append(hostname);
    text.append(":");
    text.append(username);
    let digest = sha256(text.as_str().as_bytes());
    proof {
        law_hex(digest@);
    }
    to_hex(digest.as_slice())
}

/// The name of this machine, by `hostname::get`, with what is not text in it replaced; none where it
/// cannot be had.
///
/// It depends on the machine, so nothing is claimed of it.
#[verifier::external_body]
fn host_name() -> Option<String> {
    match hostname::get() {
        Ok(name) => Some(name.to_string_lossy().into_owned()),
        Err(_) => None,
    }
}

/// Whether `name` may be the name of this machine, empty where it cannot be had: what comes of
/// asking for it, by `hostname::get`.
pub closed spec fn host_name_told(name: Seq<char>) -> bool {
    exists|told: Option<String>| #[trigger]
        call_ensures(host_name, (), told) && name == compose::text_or_empty(compose::optional(told))
}

/// The pseudonym of this machine by its salt and its user's name.
pub fn generate_device_hash(salt: &str, username: &str) -> (r: String)
    ensures
        exists|hostname: Seq<char>|
            host_name_told(hostname) && r@ == #[trigger] device_hash(salt@, hostname, username@),
        r@.len() == 64,
        forall|i: int| 0 <= i < r@.len() ==> chars::is_hex(#[trigger] r@[i]),
{
    let told = host_name();
    assert(call_ensures(host_name, (), told));
    let name = compose::or_empty(told);
    assert(host_name_told(name@));
    hash_device(salt, name.as_str(), username)
}

/// Whether a text is a salt: 64 hexadecimal digits.
pub open spec fn is_salt(s: Seq<char>) -> bool {
    s.len() == 64 && forall|i: int| 0 <= i < s.len() ==> chars::is_hex(#[trigger] s[i])
}

/// The salt in what was stored, where there is one.
pub open spec fn stored_salt(contents: Seq<char>) -> Option<Seq<char>> {
    if is_salt(chars::trimmed(contents)) {
        Some(chars::trimmed(contents))
    } else {
        None
    }
}

/// The salt in what was stored, where there is one: 64 hexadecimal digits, with white space around
/// them or not.
pub fn accept_salt(contents: &str) -> (r: Option<String>)
    ensures
        compose::optional(r) == stored_salt(contents@),
{
    let text = chars::to_chars(contents);
    let trimmed = chars::trim(text.as_slice());
    if trimmed.len() != 64 {
        return None;
    }
    let mut i: usize = 0;
    while i < trimmed.len()
        invariant
            i <= trimmed@.len(),
            trimmed@.len() == 64,
            trimmed@ == chars::trimmed(contents@),
            forall|j: int| 0 <= j < i ==> chars::is_hex(#[trigger] trimmed@[j]),
        decreases trimmed@.len() - i,
    {
        if !chars::is_hex_digit(trimmed[i]) {
            assert(!chars::is_hex(trimmed@[i as int]));
            return None;
        }
        i += 1;
    }
    Some(chars::string_of(trimmed))
}

/// Fills a buffer with random bytes, by `getrandom::fill`; none where that failed.
///
/// The bytes are random, so nothing is claimed of them but that they are as many as before.
#[verifier::external_body]
fn fill_random(buf: Vec<u8>) -> (r: Option<Vec<u8>>)
    ensures
        r matches Some(bytes) ==> bytes@.len() == buf@.len(),
{
    let mut bytes = buf;
    match getrandom::fill(bytes.as_mut_slice()) {
        Ok(()) => Some(bytes),
        Err(_) => None,
    }
}

/// Bytes that may be there.
pub open spec fn bytes_of(random: Option<Vec<u8>>) -> Option<Seq<u8>> {
    match random {
        Some(bytes) => Some(bytes@),
        None => None,
    }
}

/// Whether `random` may be the random bytes for a salt, 32 of them, or none where they cannot be had:
/// what comes of asking for them, by `getrandom::fill`.
pub closed spec fn random_told(random: Option<Seq<u8>>) -> bool {
    exists|buf: Vec<u8>, told: Option<Vec<u8>>|
        buf@.len() == 32 && #[trigger] call_ensures(fill_random, (buf,), told) && random == bytes_of(
            told,
        )
}

/// The bytes of a new salt: random ones, or a digest of the fallback.
pub open spec fn salt_bytes(random: Option<Seq<u8>>, fallback: Seq<char>) -> Seq<u8> {
    match random {
        Some(bytes) => bytes,
        None => sha256_of(vstd::utf8::encode_utf8(fallback)),
    }
}

/// A salt made of random bytes, 32 of them as a rule, or of a fallback where there are none.
pub fn make_salt(random: Option<Vec<u8>>, fallback: &str) -> (r: String)
    ensures
        r@ == hex(salt_bytes(bytes_of(random), fallback@)),
        (random is Some ==> random->0@.len() == 32) ==> is_salt(r@),
{
    let bytes = match random {
        Some(bytes) => bytes,
        None => sha256(fallback.as_bytes()),
    };
    proof {
        law_hex(bytes@);
    }
    to_hex(bytes.as_slice())
}

/// A new salt. `fallback` is used where no random bytes can be had: a text that is unlikely to
/// occur twice.
pub fn random_salt(fallback: &str) -> (r: String)
    ensures
        is_salt(r@),
        exists|random: Option<Seq<u8>>|
            random_told(random) && (random is Some ==> random->0.len() == 32) && r@ == hex(
                #[trigger] salt_bytes(random, fallback@),
            ),
{
    let mut buf: Vec<u8> = Vec::new();
    let mut i: usize = 0;
    while i < 32
        invariant
            i <= 32,
            buf@.len() == i,
        decreases 32 - i,
    {
        buf.push(0);
        i += 1;
    }
    let ghost zeros = buf;
    let random = fill_random(buf);
    assert(call_ensures(fill_random, (zeros,), random));
    assert(random_told(bytes_of(random)));
    make_salt(random, fallback)
}

/// A salt that is stored, with a line feed behind it or not, is the salt that is read back.
pub proof fn law_salt_is_persisted(salt: Seq<char>)
    requires
        is_salt(salt),
    ensures
        stored_salt(salt) == Some(salt),
        stored_salt(salt + "\n"@) == Some(salt),
{
    reveal_strlit("\n");
    assert(chars::is_hex(salt[0]) && chars::is_hex(salt.last()));
    assert(chars::trimmed_start(salt) == salt);
    assert(chars::trimmed_end(salt) == salt);
    let line = salt + "\n"@;
    assert(line[0] == salt[0]);
    assert(line.last() == '\n');
    assert(line.drop_last() == salt);
    assert(chars::trimmed_start(line) == line);
}

/// How the program was installed, by where it lies.
pub open spec fn install_method(path: Seq<char>) -> Seq<char> {
    if search::occurs(path, "/Cellar/rtk/"@) || search::occurs(path, "/homebrew/"@) {
        "homebrew"@
    } else if search::occurs(path, "/.cargo/bin/"@) || search::occurs(path, "\\.cargo\\bin\\"@) {
        "cargo"@
    } else if search::occurs(path, "/.local/bin/"@) || search::occurs(path, "\\.local\\bin\\"@) {
        "script"@
    } else if search::occurs(path, "/nix/store/"@) {
        "nix"@
    } else {
        "other"@
    }
}

/// How the program was installed, by where it lies.
pub fn install_method_from_path(path: &str) -> (r: &'static str)
    ensures
        r@ == install_method(path@),
{
    let text = chars::to_chars(path);
    let p = text.as_slice();
    if search::contains(p, "/Cellar/rtk/") || search::contains(p, "/homebrew/") {
        "homebrew"
    } else if search::contains(p, "/.cargo/bin/") || search::contains(p, "\\.cargo\\bin\\") {
        "cargo"
    } else if search::contains(p, "/.local/bin/") || search::contains(p, "\\.local\\bin\\") {
        "script"
    } else if search::contains(p, "/nix/store/") {
        "nix"
    } else {
        "other"
    }
}

/// A report is due where nobody opted out and none was sent for 23 hours.
pub proof fn law_report_is_due(disabled: Seq<char>, enabled: Option<bool>, elapsed: u64)
    requires
        disabled != "1"@,
        enabled != Some(false),
    ensures
        ping_due(true, disabled, enabled, None),
        ping_due(true, disabled, enabled, Some(elapsed)) <==> elapsed >= 82_800,
{
}

/// Each byte is written with two digits of its own, in order.
pub proof fn law_hex_digits(bytes: Seq<u8>, i: int)
    requires
        0 <= i < bytes.len(),
    ensures
        hex(bytes).len() == 2 * bytes.len(),
        hex(bytes)[2 * i] == hex_digit((bytes[i] / 16) as nat),
        hex(bytes)[2 * i + 1] == hex_digit((bytes[i] % 16) as nat),
    decreases bytes.len(),
{
    law_hex(bytes);
    let front = bytes.drop_last();
    law_hex(front);
    if i < front.len() {
        law_hex_digits(front, i);
        assert(front[i] == bytes[i]);
    }
}

/// The digits are those of the hexadecimal system, in lower case.
pub proof fn law_hex_digit_values(d: nat)
    requires
        d < 16,
    ensures
        d < 10 ==> hex_digit(d) as nat == '0' as nat + d,
        d >= 10 ==> hex_digit(d) as nat == 'a' as nat + (d - 10),
{
}

/// The pseudonym of a device is made of its salt, its name and its user's name, and of nothing else.
pub proof fn law_device_hash(salt: Seq<char>, hostname: Seq<char>, username: Seq<char>)
    ensures
        device_hash(salt, hostname, username) == hex(
            sha256_of(
                vstd::utf8::encode_utf8(salt + ":"@ + hostname + ":"@ + username),
            ),
        ),
{
}

/// What is stored is a salt exactly where it is 64 hexadecimal digits, with white space around them
/// or not; anything else is not accepted.
pub proof fn law_salt_accepted(contents: Seq<char>)
    ensures
        stored_salt(contents) is Some <==> chars::trimmed(contents).len() == 64 && forall|i: int|
            0 <= i < 64 ==> chars::is_hex(#[trigger] chars::trimmed(contents)[i]),
        stored_salt(contents) is Some ==> stored_salt(contents)->0 == chars::trimmed(contents),
{
}

/// A salt is made of the random bytes where there are any, and of the fallback where there are none.
pub proof fn law_salt_bytes(bytes: Seq<u8>, fallback: Seq<char>)
    ensures
        salt_bytes(Some(bytes), fallback) == bytes,
        salt_bytes(None, fallback) == sha256_of(vstd::utf8::encode_utf8(fallback)),
{
}

/// How the program was installed is told by its path: Homebrew before Cargo, Cargo before a script,
/// and that before Nix.
pub proof fn law_install_method(a: Seq<char>, b: Seq<char>, path: Seq<char>)
    ensures
        install_method(a + "/Cellar/rtk/"@ + b) == "homebrew"@,
        install_method(a + "/homebrew/"@ + b) == "homebrew"@,
        install_method(path) == "cargo"@ ==> search::occurs(path, "/.cargo/bin/"@)
            || search::occurs(path, "\\.cargo\\bin\\"@),
        install_method(path) == "script"@ ==> search::occurs(path, "/.local/bin/"@)
            || search::occurs(path, "\\.local\\bin\\"@),
        install_method(path) == "nix"@ ==> search::occurs(path, "/nix/store/"@),
        install_method(path) == "other"@ ==> !search::occurs(path, "/Cellar/rtk/"@)
            && !search::occurs(path, "/homebrew/"@) && !search::occurs(path, "/.cargo/bin/"@)
            && !search::occurs(path, "\\.cargo\\bin\\"@) && !search::occurs(path, "/.local/bin/"@)
            && !search::occurs(path, "\\.local\\bin\\"@) && !search::occurs(path, "/nix/store/"@),
        install_method(path) == "script"@ ==> !search::occurs(path, "/.cargo/bin/"@),
        install_method(path) == "nix"@ ==> !search::occurs(path, "/.cargo/bin/"@)
            && !search::occurs(path, "/.local/bin/"@),
{
    reveal_strlit("homebrew");
    reveal_strlit("cargo");
    reveal_strlit("script");
    reveal_strlit("nix");
    reveal_strlit("other");
    assert("homebrew"@.len() == 8 && "cargo"@.len() == 5 && "script"@.len() == 6 && "nix"@.len() == 3);
    assert("cargo"@[0] != "other"@[0]);
    search::lemma_occurs_between(a, "/Cellar/rtk/"@, b);
    search::lemma_occurs_between(a, "/homebrew/"@, b);
}

} // verus!
