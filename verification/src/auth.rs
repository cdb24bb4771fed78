//! Who may use the administration of the server, and what kind of file is sent.
use crate::table;
use crate::text;
use vstd::prelude::*;
use vstd::string::*;
use vstd::utf8::*;

verus! {

/// Bytes of the token of an administrator.
pub const ADMIN_TOKEN_BYTES: usize = 32;

/// Whether a token is one of an administrator.
pub open spec fn valid_token(token: Seq<char>) -> bool {
    encode_utf8(token).len() == ADMIN_TOKEN_BYTES
}

/// The paths that only administrators may use begin with one of these.
pub open spec fn protected_paths() -> Seq<Seq<char>> {
    seq![
        "/api/sessions"@,
        "/api/disconnect"@,
        "/api/ban"@,
        "/api/bans"@,
        "/api/unban"@,
        "/api/create-room"@,
        "/api/create-competition-room"@,
        "/api/delete-room"@,
        "/api/switch-competition-mode"@,
        "/api/select-chart"@,
        "/api/start-game"@,
        "/api/broadcast-inspection"@,
        "/api/maintenance"@,
        "/api/maintenance/whitelist"@,
        "/api/room/message"@,
        "/api/maintenance/status"@,
        "/api/room/set-live"@,
    ]
}

/// The paths that everybody may use begin with one of these.
pub open spec fn public_paths() -> Seq<Seq<char>> {
    seq!["/api/login"@, "/api/rooms"@]
}

/// Whether a path begins with one of some others.
pub open spec fn under(path: Seq<char>, heads: Seq<Seq<char>>) -> bool {
    exists|i: int| 0 <= i < heads.len() && text::begins(path, #[trigger] heads[i])
}

/// Whether only administrators may use a path.
pub open spec fn guarded(path: Seq<char>) -> bool {
    under(path, protected_paths()) && !under(path, public_paths())
}

/// The token that a header carries; an empty one where there is none.
pub open spec fn bearer(header: Option<Seq<char>>) -> Seq<char> {
    match header {
        Some(h) => if text::begins(h, "Bearer "@) {
            h.skip("Bearer "@.len() as int)
        } else {
            Seq::empty()
        },
        None => Seq::empty(),
    }
}

/// Whether a path begins with one of some others.
fn begins_with_any(path: &str, heads: &Vec<&str>) -> (res: bool)
    ensures
        res == exists|i: int| 0 <= i < heads@.len() && text::begins(path@, (#[trigger] heads@[i])@),
{
    let mut i: usize = 0;
    while i < heads.len()
        invariant
            i <= heads.len(),
            forall|j: int| 0 <= j < i ==> !text::begins(path@, (#[trigger] heads@[j])@),
        decreases heads.len() - i,
    {
        let head: &str = heads[i];
        if text::starts_with(path, head) {
            assert(text::begins(path@, heads@[i as int]@));
            return true;
        }
        i += 1;
    }
    false
}

/// Whether only administrators may use a path.
pub fn is_guarded(path: &str) -> (res: bool)
    ensures
        res == guarded(path@),
{
    let protected: Vec<&str> = vec![
        "/api/sessions",
        "/api/disconnect",
        "/api/ban",
        "/api/bans",
        "/api/unban",
        "/api/create-room",
        "/api/create-competition-room",
        "/api/delete-room",
        "/api/switch-competition-mode",
        "/api/select-chart",
        "/api/start-game",
        "/api/broadcast-inspection",
        "/api/maintenance",
        "/api/maintenance/whitelist",
        "/api/room/message",
        "/api/maintenance/status",
        "/api/room/set-live",
    ];
    let public: Vec<&str> = vec!["/api/login", "/api/rooms"];
    let a: bool = begins_with_any(path, &protected);
    let b: bool = begins_with_any(path, &public);
    proof {
        let p = protected_paths();
        let q = public_paths();
        assert(forall|i: int| 0 <= i < p.len() ==> (#[trigger] protected@[i])@ == p[i]);
        assert(forall|i: int| 0 <= i < q.len() ==> (#[trigger] public@[i])@ == q[i]);
        if a {
            let i = choose|i: int|
                0 <= i < protected@.len() && text::begins(path@, (#[trigger] protected@[i])@);
            assert(text::begins(path@, p[i]));
        }
        if under(path@, p) {
            let i = choose|i: int| 0 <= i < p.len() && text::begins(path@, #[trigger] p[i]);
            assert(text::begins(path@, protected@[i]@));
        }
        if b {
            let i = choose|i: int|
                0 <= i < public@.len() && text::begins(path@, (#[trigger] public@[i])@);
            assert(text::begins(path@, q[i]));
        }
        if under(path@, q) {
            let i = choose|i: int| 0 <= i < q.len() && text::begins(path@, #[trigger] q[i]);
            assert(text::begins(path@, public@[i]@));
        }
    }
    a && !b
}

/// Whether a token is one of an administrator.
pub fn is_valid_token(token: &str) -> (res: bool)
    ensures
        res == valid_token(token@),
{
    token.as_bytes().len() == ADMIN_TOKEN_BYTES
}

/// The view of an optional text.
pub open spec fn header_view(header: Option<&str>) -> Option<Seq<char>> {
    match header {
        Some(h) => Some(h@),
        None => None,
    }
}

/// Whether a request may go on: its path is open to everybody, or it carries a token.
pub fn is_authorized(path: &str, header: Option<&str>) -> (res: bool)
    ensures
        res == (guarded(path@) ==> valid_token(bearer(header_view(header)))),
{
    if !is_guarded(path) {
        return true;
    }
    let token: &str = match header {
        Some(h) => match text::strip_prefix(h, "Bearer ") {
            Some(t) => t,
            None => "",
        },
        None => "",
    };
    proof {
        reveal_strlit("");
        assert(""@ =~= Seq::<char>::empty());
    }
    is_valid_token(token)
}

/// The digit of a number below sixteen.
pub open spec fn hex_digit(n: int) -> char {
    if n == 0 {
        '0'
    } else if n == 1 {
        '1'
    } else if n == 2 {
        '2'
    } else if n == 3 {
        '3'
    } else if n == 4 {
        '4'
    } else if n == 5 {
        '5'
    } else if n == 6 {
        '6'
    } else if n == 7 {
        '7'
    } else if n == 8 {
        '8'
    } else if n == 9 {
        '9'
    } else if n == 10 {
        'a'
    } else if n == 11 {
        'b'
    } else if n == 12 {
        'c'
    } else if n == 13 {
        'd'
    } else if n == 14 {
        'e'
    } else {
        'f'
    }
}

/// The digits of some random bytes, each taken modulo sixteen.
pub open spec fn hex_text(bytes: Seq<u8>) -> Seq<char> {
    Seq::new(bytes.len(), |i: int| hex_digit(bytes[i] as int % 16))
}

/// The digit of a number below sixteen.
fn hex_digit_text(n: u8) -> (res: &'static str)
    requires
        n < 16,
    ensures
        res@ == seq![hex_digit(n as int)],
{
    proof {
        reveal_strlit("0");
        reveal_strlit("1");
        reveal_strlit("2");
        reveal_strlit("3");
        reveal_strlit("4");
        reveal_strlit("5");
        reveal_strlit("6");
        reveal_strlit("7");
        reveal_strlit("8");
        reveal_strlit("9");
        reveal_strlit("a");
        reveal_strlit("b");
        reveal_strlit("c");
        reveal_strlit("d");
        reveal_strlit("e");
        reveal_strlit("f");
    }
    let res: &'static str = match n {
        0 => "0",
        1 => "1",
        2 => "2",
        3 => "3",
        4 => "4",
        5 => "5",
        6 => "6",
        7 => "7",
        8 => "8",
        9 => "9",
        10 => "a",
        11 => "b",
        12 => "c",
        13 => "d",
        14 => "e",
        _ => "f",
    };
    assert(res@ =~= seq![hex_digit(n as int)]);
    res
}

/// The token made of some random bytes.
pub fn token_from(bytes: &Vec<u8>) -> (res: String)
    ensures
        res@ == hex_text(bytes@),
{
    let mut res: String = String::new();
    let mut i: usize = 0;
    assert(res@ =~= hex_text(bytes@.take(0)));
    while i < bytes.len()
        invariant
            i <= bytes.len(),
            res@ == hex_text(bytes@.take(i as int)),
        decreases bytes.len() - i,
    {
        let d: &str = hex_digit_text(bytes[i] % 16);
        res.append(d);
        proof {
            assert(hex_text(bytes@.take(i + 1)) =~= hex_text(bytes@.take(i as int)) + seq![
                hex_digit(bytes@[i as int] as int % 16),
            ]);
        }
        i += 1;
    }
    assert(bytes@.take(i as int) =~= bytes@);
    res
}

/// `rand::random` gives any byte at all.
#[verifier::external_body]
fn random_byte() -> (res: u8) {
    rand::random::<u8>()
}

/// A fresh token of an administrator.
pub fn fresh_token() -> (res: String)
    ensures
        exists|bytes: Seq<u8>|
            bytes.len() == ADMIN_TOKEN_BYTES && res@ == #[trigger] hex_text(bytes),
        valid_token(res@),
{
    let mut bytes: Vec<u8> = Vec::new();
    while bytes.len() < ADMIN_TOKEN_BYTES
        invariant
            bytes.len() <= ADMIN_TOKEN_BYTES,
        decreases ADMIN_TOKEN_BYTES - bytes.len(),
    {
        bytes.push(random_byte());
    }
    proof {
        law_token_valid(bytes@);
    }
    token_from(&bytes)
}

/// Names and passwords as texts.
pub open spec fn pair_views(pairs: Seq<(String, String)>) -> Seq<(Seq<char>, Seq<char>)> {
    Seq::new(pairs.len(), |i: int| (pairs[i].0@, pairs[i].1@))
}

/// Whether a password is the one that is kept for a name.
pub open spec fn known(
    pairs: Seq<(Seq<char>, Seq<char>)>,
    username: Seq<char>,
    password: Seq<char>,
) -> bool {
    table::lookup(pairs, username) == Some(password)
}

/// The names and passwords in a JSON text, each name once and in order; nothing where the text
/// is not an object whose values are all texts.
pub uninterp spec fn credentials(content: Seq<char>) -> Option<Seq<(Seq<char>, Seq<char>)>>;

/// `serde_json::from_str` reads a map from texts to texts out of a JSON text, or fails. What it
/// reads depends on the text alone. Which texts it takes, and what it reads out of them, is left
/// unsaid.
#[verifier::external_body]
fn parse_credentials(content: &str) -> (res: Option<Vec<(String, String)>>)
    ensures
        match res {
            Some(v) => credentials(content@) == Some(pair_views(v@)),
            None => credentials(content@) is None,
        },
{
    serde_json::from_str::<std::collections::BTreeMap<String, String>>(content)
        .ok()
        .map(|m| m.into_iter().collect())
}

/// Whether a password is the one that is kept for a name.
pub fn is_known(pairs: &Vec<(String, String)>, username: &str, password: &str) -> (res: bool)
    ensures
        res == known(pair_views(pairs@), username@, password@),
{
    let ghost all = pair_views(pairs@);
    let mut i: usize = 0;
    while i < pairs.len()
        invariant
            i <= pairs.len(),
            all == pair_views(pairs@),
            forall|j: int| 0 <= j < i ==> (#[trigger] all[j]).0 != username@,
        decreases pairs.len() - i,
    {
        assert(all[i as int] == (pairs@[i as int].0@, pairs@[i as int].1@));
        if text::same(pairs[i].0.as_str(), username) {
            proof {
                table::lemma_find_is(all, username@, i as int);
            }
            return text::same(pairs[i].1.as_str(), password);
        }
        i += 1;
    }
    proof {
        table::lemma_find_is(all, username@, i as int);
    }
    false
}

/// Whether a password is the one that is kept for a name in a file; `content` is its text, if
/// it could be read.
pub fn validate_credentials(content: Option<&str>, username: &str, password: &str) -> (res: bool)
    ensures
        res == (content matches Some(c) && (credentials(c@) matches Some(pairs) && known(
            pairs,
            username@,
            password@,
        ))),
{
    match content {
        Some(c) => match parse_credentials(c) {
            Some(pairs) => is_known(&pairs, username, password),
            None => false,
        },
        None => false,
    }
}

/// The token for someone who gave the right password.
pub fn login(valid: bool) -> (res: Option<String>)
    ensures
        res is Some <==> valid,
        res matches Some(token) ==> valid_token(token@) && exists|bytes: Seq<u8>|
            bytes.len() == ADMIN_TOKEN_BYTES && token@ == #[trigger] hex_text(bytes),
{
    if valid {
        Some(fresh_token())
    } else {
        None
    }
}

/// Every token made of so many random bytes is valid.
pub proof fn law_token_valid(bytes: Seq<u8>)
    requires
        bytes.len() == ADMIN_TOKEN_BYTES,
    ensures
        valid_token(hex_text(bytes)),
{
    is_ascii_chars_encode_utf8(hex_text(bytes));
}

/// The kind of a file, by the ending of its name.
pub open spec fn kind_of(ending: Option<Seq<char>>) -> Seq<char> {
    match ending {
        Some(e) => if e == "html"@ {
            "text/html"@
        } else if e == "css"@ {
            "text/css"@
        } else if e == "js"@ {
            "application/javascript"@
        } else if e == "json"@ {
            "application/json"@
        } else if e == "png"@ {
            "image/png"@
        } else if e == "jpg"@ || e == "jpeg"@ {
            "image/jpeg"@
        } else if e == "gif"@ {
            "image/gif"@
        } else if e == "svg"@ {
            "image/svg+xml"@
        } else if e == "ico"@ {
            "image/x-icon"@
        } else {
            "application/octet-stream"@
        },
        None => "application/octet-stream"@,
    }
}

/// The kind of a file, by the ending of its name.
pub fn mime_type(ending: Option<&str>) -> (res: &'static str)
    ensures
        res@ == kind_of(header_view(ending)),
{
    let e: &str = match ending {
        Some(e) => e,
        None => {
            return "application/octet-stream";
        },
    };
    if text::same(e, "html") {
        "text/html"
    } else if text::same(e, "css") {
        "text/css"
    } else if text::same(e, "js") {
        "application/javascript"
    } else if text::same(e, "json") {
        "application/json"
    } else if text::same(e, "png") {
        "image/png"
    } else if text::same(e, "jpg") || text::same(e, "jpeg") {
        "image/jpeg"
    } else if text::same(e, "gif") {
        "image/gif"
    } else if text::same(e, "svg") {
        "image/svg+xml"
    } else if text::same(e, "ico") {
        "image/x-icon"
    } else {
        "application/octet-stream"
    }
}

/// How much is logged.
#[derive(Debug, Clone, Copy, PartialEq, Eq, Structural)]
pub enum LogLevel {
    Trace,
    Debug,
    Info,
    Warn,
    Error,
}

/// The level that a word asks for, in any case; the usual one for every other word.
pub open spec fn level_of(word: Seq<char>) -> LogLevel {
    let w = text::lower(word);
    if w == "trace"@ {
        LogLevel::Trace
    } else if w == "debug"@ {
        LogLevel::Debug
    } else if w == "warn"@ {
        LogLevel::Warn
    } else if w == "error"@ {
        LogLevel::Error
    } else {
        LogLevel::Info
    }
}

/// The level that a word in lower case asks for.
pub fn level_for(w: &str) -> (res: LogLevel)
    ensures
        res == (if w@ == "trace"@ {
            LogLevel::Trace
        } else if w@ == "debug"@ {
            LogLevel::Debug
        } else if w@ == "warn"@ {
            LogLevel::Warn
        } else if w@ == "error"@ {
            LogLevel::Error
        } else {
            LogLevel::Info
        }),
{
    if text::same(w, "trace") {
        LogLevel::Trace
    } else if text::same(w, "debug") {
        LogLevel::Debug
    } else if text::same(w, "warn") {
        LogLevel::Warn
    } else if text::same(w, "error") {
        LogLevel::Error
    } else {
        LogLevel::Info
    }
}

/// The level that a word asks for, in any case.
pub fn log_level(word: &str) -> (res: LogLevel)
    ensures
        res == level_of(word@),
{
    let w: String = text::to_lowercase(word);
    level_for(w.as_str())
}

/// A path that begins with one of those of administrators, and differs from those of everybody.
proof fn lemma_guarded(p: Seq<char>, rest: Seq<char>, i: int, j: int, k: int)
    requires
        0 <= i < protected_paths().len(),
        protected_paths()[i] == p,
        0 <= j < p.len(),
        0 <= k < p.len(),
        j < "/api/login"@.len(),
        k < "/api/rooms"@.len(),
        p[j] != "/api/login"@[j],
        p[k] != "/api/rooms"@[k],
    ensures
        guarded(p + rest),
{
    let path = p + rest;
    assert(path.take(p.len() as int) =~= p);
    assert(text::begins(path, protected_paths()[i]));
    assert forall|n: int| 0 <= n < public_paths().len() implies !text::begins(
        path,
        #[trigger] public_paths()[n],
    ) by {
        let h = public_paths()[n];
        if text::begins(path, h) {
            assert(path.take(h.len() as int)[j] == path[j] || n != 0);
            assert(path.take(h.len() as int)[k] == path[k] || n != 1);
        }
    }
}

/// What only administrators may use: the sessions, bans, rooms and messages of the server, its
/// games and its maintenance, whatever comes after in the path.
pub proof fn law_guarded(rest: Seq<char>)
    ensures
        guarded("/api/sessions"@ + rest),
        guarded("/api/disconnect"@ + rest),
        guarded("/api/ban"@ + rest),
        guarded("/api/bans"@ + rest),
        guarded("/api/unban"@ + rest),
        guarded("/api/create-room"@ + rest),
        guarded("/api/create-competition-room"@ + rest),
        guarded("/api/delete-room"@ + rest),
        guarded("/api/switch-competition-mode"@ + rest),
        guarded("/api/select-chart"@ + rest),
        guarded("/api/start-game"@ + rest),
        guarded("/api/broadcast-inspection"@ + rest),
        guarded("/api/maintenance"@ + rest),
        guarded("/api/maintenance/whitelist"@ + rest),
        guarded("/api/room/message"@ + rest),
        guarded("/api/maintenance/status"@ + rest),
        guarded("/api/room/set-live"@ + rest),
{
    reveal_strlit("/api/login");
    reveal_strlit("/api/rooms");
    reveal_strlit("/api/sessions");
    lemma_guarded("/api/sessions"@, rest, 0, 5, 5);
    reveal_strlit("/api/disconnect");
    lemma_guarded("/api/disconnect"@, rest, 1, 5, 5);
    reveal_strlit("/api/ban");
    lemma_guarded("/api/ban"@, rest, 2, 5, 5);
    reveal_strlit("/api/bans");
    lemma_guarded("/api/bans"@, rest, 3, 5, 5);
    reveal_strlit("/api/unban");
    lemma_guarded("/api/unban"@, rest, 4, 5, 5);
    reveal_strlit("/api/create-room");
    lemma_guarded("/api/create-room"@, rest, 5, 5, 5);
    reveal_strlit("/api/create-competition-room");
    lemma_guarded("/api/create-competition-room"@, rest, 6, 5, 5);
    reveal_strlit("/api/delete-room");
    lemma_guarded("/api/delete-room"@, rest, 7, 5, 5);
    reveal_strlit("/api/switch-competition-mode");
    lemma_guarded("/api/switch-competition-mode"@, rest, 8, 5, 5);
    reveal_strlit("/api/select-chart");
    lemma_guarded("/api/select-chart"@, rest, 9, 5, 5);
    reveal_strlit("/api/start-game");
    lemma_guarded("/api/start-game"@, rest, 10, 5, 5);
    reveal_strlit("/api/broadcast-inspection");
    lemma_guarded("/api/broadcast-inspection"@, rest, 11, 5, 5);
    reveal_strlit("/api/maintenance");
    lemma_guarded("/api/maintenance"@, rest, 12, 5, 5);
    reveal_strlit("/api/maintenance/whitelist");
    lemma_guarded("/api/maintenance/whitelist"@, rest, 13, 5, 5);
    reveal_strlit("/api/room/message");
    lemma_guarded("/api/room/message"@, rest, 14, 5, 9);
    reveal_strlit("/api/maintenance/status");
    lemma_guarded("/api/maintenance/status"@, rest, 15, 5, 5);
    reveal_strlit("/api/room/set-live");
    lemma_guarded("/api/room/set-live"@, rest, 16, 5, 9);
}

/// What everybody may use: logging in, and the list of rooms.
pub proof fn law_open_to_all(rest: Seq<char>)
    ensures
        !guarded("/api/login"@ + rest),
        !guarded("/api/rooms"@ + rest),
{
    let a = "/api/login"@ + rest;
    let b = "/api/rooms"@ + rest;
    assert(a.take("/api/login"@.len() as int) =~= "/api/login"@);
    assert(b.take("/api/rooms"@.len() as int) =~= "/api/rooms"@);
    assert(text::begins(a, public_paths()[0]));
    assert(text::begins(b, public_paths()[1]));
}

/// The token of a request is what follows the word before it; without that word there is none.
pub proof fn law_bearer(token: Seq<char>, header: Seq<char>)
    ensures
        bearer(Some("Bearer "@ + token)) == token,
        bearer(None) == Seq::<char>::empty(),
        !(header.len() >= "Bearer "@.len() && header.take("Bearer "@.len() as int) == "Bearer "@)
            ==> bearer(Some(header)) == Seq::<char>::empty(),
{
    let h = "Bearer "@ + token;
    assert(h.take("Bearer "@.len() as int) =~= "Bearer "@);
    assert(h.skip("Bearer "@.len() as int) =~= token);
}

/// A token is one of an administrator if it takes 32 bytes.
pub proof fn law_token_length(token: Seq<char>)
    ensures
        valid_token(token) <==> encode_utf8(token).len() == 32,
{
}

/// Someone is known by a password only if it stands beside their name, first of all that do.
pub proof fn law_known(
    pairs: Seq<(Seq<char>, Seq<char>)>,
    username: Seq<char>,
    password: Seq<char>,
)
    ensures
        known(pairs, username, password) <==> exists|i: int|
            0 <= i < pairs.len() && #[trigger] pairs[i] == (username, password) && forall|j: int|
                0 <= j < i ==> (#[trigger] pairs[j]).0 != username,
{
    table::lemma_find(pairs, username);
    if known(pairs, username, password) {
        let i = table::find(pairs, username);
        assert(pairs[i] == (username, password));
    }
    if exists|i: int|
        0 <= i < pairs.len() && #[trigger] pairs[i] == (username, password) && forall|j: int|
            0 <= j < i ==> (#[trigger] pairs[j]).0 != username {
        let i = choose|i: int|
            0 <= i < pairs.len() && #[trigger] pairs[i] == (username, password) && forall|j: int|
                0 <= j < i ==> (#[trigger] pairs[j]).0 != username;
        table::lemma_find_is(pairs, username, i);
    }
}

/// The digits of a token are those of the hexadecimal numbers, each for a byte modulo sixteen.
pub proof fn law_token_digits(bytes: Seq<u8>, i: int)
    requires
        0 <= i < bytes.len(),
    ensures
        hex_text(bytes).len() == bytes.len(),
        bytes[i] % 16 < 10 ==> hex_text(bytes)[i] as int == '0' as int + bytes[i] % 16,
        bytes[i] % 16 >= 10 ==> hex_text(bytes)[i] as int == 'a' as int + bytes[i] % 16 - 10,
{
}

/// What a file is told to be goes by its ending: one kind for each ending, but for the two of
/// photographs, and bytes of no kind for every other.
pub proof fn law_kinds(ending: Seq<char>)
    ensures
        ({
            let known = seq![
                "html"@,
                "css"@,
                "js"@,
                "json"@,
                "png"@,
                "jpg"@,
                "jpeg"@,
                "gif"@,
                "svg"@,
                "ico"@,
            ];
            let kinds = seq![
                "text/html"@,
                "text/css"@,
                "application/javascript"@,
                "application/json"@,
                "image/png"@,
                "image/jpeg"@,
                "image/jpeg"@,
                "image/gif"@,
                "image/svg+xml"@,
                "image/x-icon"@,
            ];
            &&& forall|i: int| 0 <= i < 10 ==> kind_of(Some(#[trigger] known[i])) == kinds[i]
            &&& !known.contains(ending) ==> kind_of(Some(ending)) == "application/octet-stream"@
            &&& kind_of(None) == "application/octet-stream"@
        }),
{
    reveal_strlit("html");
    reveal_strlit("css");
    reveal_strlit("js");
    reveal_strlit("json");
    reveal_strlit("png");
    reveal_strlit("jpg");
    reveal_strlit("jpeg");
    reveal_strlit("gif");
    reveal_strlit("svg");
    reveal_strlit("ico");
    let known = seq![
        "html"@,
        "css"@,
        "js"@,
        "json"@,
        "png"@,
        "jpg"@,
        "jpeg"@,
        "gif"@,
        "svg"@,
        "ico"@,
    ];
    assert("css"@[0] == 'c' && "gif"@[0] == 'g' && "svg"@[0] == 's' && "ico"@[0] == 'i');
    assert("html"@[0] == 'h' && "json"@[1] == 's' && "jpeg"@[1] == 'p' && "jpg"@[0] == 'j');
    assert("png"@[0] == 'p' && "json"@[0] == 'j' && "jpeg"@[0] == 'j' && "js"@.len() == 2);
    assert("jpg"@.len() == 3 && "jpeg"@.len() == 4 && "json"@.len() == 4 && "html"@.len() == 4);
    if !known.contains(ending) {
        assert(known[0] != ending && known[1] != ending && known[2] != ending && known[3] != ending
            && known[4] != ending && known[5] != ending && known[6] != ending && known[7] != ending
            && known[8] != ending && known[9] != ending);
    }
}

/// How much is logged goes by a word, in whatever case it is written: words for less than all,
/// and the usual for every other.
pub proof fn law_levels(word: Seq<char>)
    ensures
        text::lower(word) == "trace"@ <==> level_of(word) == LogLevel::Trace,
        text::lower(word) == "debug"@ <==> level_of(word) == LogLevel::Debug,
        text::lower(word) == "warn"@ <==> level_of(word) == LogLevel::Warn,
        text::lower(word) == "error"@ <==> level_of(word) == LogLevel::Error,
{
    reveal_strlit("trace");
    reveal_strlit("debug");
    reveal_strlit("warn");
    reveal_strlit("error");
    assert("trace"@[0] == 't' && "debug"@[0] == 'd' && "warn"@[0] == 'w' && "error"@[0] == 'e');
}

} // verus!
