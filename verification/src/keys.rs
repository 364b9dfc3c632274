//! Secret keys: their text form, where they are kept, and the identities made of them.

use vstd::prelude::*;

use crate::digits::{
    decode_hex, encode_hex, hex_bytes, hex_text, hex_value, is_hex, law_hex_round_trip,
};
use crate::surroundings::{text_in, Surroundings};
use crate::text::{
    is_blank, join_path, joined3, law_blank_text_leaves_nothing, lemma_trimmed_between,
    lemma_trimmed_twice, number_text, path_below, trim, trimmed, written_number,
};
use crate::transport::{law_node_text_is_plain, node_of};
use crate::trust::TrustManager;

verus! {

/// Why a text is not a secret key.
#[derive(Debug)]
pub enum KeyError {
    /// The text does not consist of pairs of hexadecimal digits.
    NotHex(hex::FromHexError),
    /// The text holds this many bytes instead of 32.
    WrongLength(usize),
}

impl KeyError {
    /// The text for the user.
    pub open spec fn text(&self) -> Seq<char> {
        match *self {
            KeyError::NotHex(_) => "Invalid hex string for secret key"@,
            KeyError::WrongLength(n) =>
                "Secret key must be 32 bytes (64 hex characters), got "@ + number_text(n as nat)
                    + " bytes"@,
        }
    }

    /// The text for the user.
    pub fn message(&self) -> (r: String)
        ensures
            r@ == self.text(),
    {
        match self {
            KeyError::NotHex(_) => "Invalid hex string for secret key".to_owned(),
            KeyError::WrongLength(n) => joined3(
                "Secret key must be 32 bytes (64 hex characters), got ",
                &written_number(*n as u64),
                " bytes",
            ),
        }
    }
}

/// The number of bytes of a secret key.
pub const KEY_LEN: usize = 32;

/// The key that a text holds, without regard to surrounding white space.
pub open spec fn key_of(s: Seq<char>) -> Option<Seq<u8>> {
    let t = trimmed(s);
    if is_hex(t) && hex_bytes(t).len() == KEY_LEN {
        Some(hex_bytes(t))
    } else {
        None
    }
}

/// `r` is what reading a secret key from `s` gives.
pub open spec fn reads_key(r: Result<[u8; 32], KeyError>, s: Seq<char>) -> bool {
    match r {
        Ok(key) => key_of(s) == Some(key@),
        Err(KeyError::NotHex(_)) => !is_hex(trimmed(s)),
        Err(KeyError::WrongLength(n)) => is_hex(trimmed(s)) && n == hex_bytes(trimmed(s)).len() && n
            != KEY_LEN,
    }
}

/// Reads a secret key from 64 hexadecimal digits.
pub fn parse_secret_key_hex(s: &str) -> (r: Result<[u8; 32], KeyError>)
    ensures
        reads_key(r, s@),
{
    match decode_hex(trim(s)) {
        Err(e) => Err(KeyError::NotHex(e)),
        Ok(bytes) => {
            if bytes.len() != KEY_LEN {
                return Err(KeyError::WrongLength(bytes.len()));
            }
            let mut key = [0u8;32];
            for i in 0..KEY_LEN
                invariant
                    bytes@.len() == KEY_LEN,
                    key@.len() == KEY_LEN,
                    forall|j: int| 0 <= j < i ==> #[trigger] key@[j] == bytes@[j],
            {
                key[i] = bytes[i];
            }
            assert(key@ =~= bytes@);
            Ok(key)
        },
    }
}

/// The text under which a secret key is kept.
pub fn secret_key_text(key: &[u8; 32]) -> (r: String)
    ensures
        r@ == hex_text(key@),
{
    encode_hex(key)
}

/// `iroh::SecretKey::generate` and its bytes: a new random key. Nothing is claimed of it, since
/// it differs from call to call.
#[verifier::external_body]
pub(crate) fn generate_secret_key() -> (r: [u8; 32]) {
    iroh::SecretKey::generate().to_bytes()
}

/// The public key that belongs to a secret key.
pub uninterp spec fn public_key_of(secret: Seq<u8>) -> Seq<u8>;

/// `iroh::SecretKey::public` on the key with the given bytes: a function of the bytes alone. The
/// 64 lower-case hexadecimal digits of a public key are read as that key.
#[verifier::external_body]
pub(crate) fn public_key(secret: &[u8; 32]) -> (r: [u8; 32])
    ensures
        r@ == public_key_of(secret@),
        node_of(hex_text(r@)) == Some(r@),
{
    *iroh::SecretKey::from_bytes(secret).public().as_bytes()
}

/// The file that holds the server's key on a whole system.
pub open spec fn system_key_path() -> Seq<char> {
    "/etc/joycast/server.key"@
}

/// The file that holds the server's key below a configuration directory.
pub open spec fn user_key_path(config_dir: Seq<char>) -> Seq<char> {
    path_below(path_below(config_dir, "joycast"@), "server.key"@)
}

/// The files in which the server looks for its key, in this order.
pub open spec fn key_places(s: &Surroundings) -> Seq<Seq<char>> {
    seq![system_key_path()] + (match s.account() {
        Some(u) => seq!["/home/"@ + u + "/.config/joycast/server.key"@],
        None => seq![],
    }) + (match text_in(s.config_dir) {
        Some(dir) => seq![user_key_path(dir)],
        None => seq![],
    })
}

/// The file in which the server keeps a new key.
pub open spec fn new_key_place(s: &Surroundings, system_file_exists: bool) -> Seq<char> {
    if system_file_exists || s.user_is_root() || s.systemd_exec_pid {
        system_key_path()
    } else {
        match text_in(s.config_dir) {
            Some(dir) => user_key_path(dir),
            None => system_key_path(),
        }
    }
}

/// The files in which the server looks for its key, in this order.
pub fn key_candidates(s: &Surroundings) -> (r: Vec<String>)
    ensures
        r@.map_values(|p: String| p@) == key_places(s),
{
    let mut r: Vec<String> = Vec::new();
    r.push("/etc/joycast/server.key".to_owned());
    match s.sudo_account() {
        Some(u) => {
            r.push(joined3("/home/", u, "/.config/joycast/server.key"));
        },
        None => {},
    }
    match &s.config_dir {
        Some(dir) => {
            let below = join_path(dir, "joycast");
            r.push(join_path(&below, "server.key"));
        },
        None => {},
    }
    assert(r@.map_values(|p: String| p@) =~= key_places(s));
    r
}

/// The file in which the server keeps a new key.
pub fn new_key_path(s: &Surroundings, system_file_exists: bool) -> (r: String)
    ensures
        r@ == new_key_place(s, system_file_exists),
{
    if system_file_exists || TrustManager::is_root_context(s) {
        "/etc/joycast/server.key".to_owned()
    } else {
        match &s.config_dir {
            Some(dir) => {
                let below = join_path(dir, "joycast");
                join_path(&below, "server.key")
            },
            None => "/etc/joycast/server.key".to_owned(),
        }
    }
}

/// The key that the file with the contents `content` holds; `None` is a file that could not be
/// read.
pub open spec fn key_in(content: Option<String>) -> Option<Seq<u8>> {
    match content {
        Some(s) => key_of(s@),
        None => None,
    }
}

/// The first of the files that holds a key, and the key. `None` stands for a file that could
/// not be read.
pub fn first_key(contents: &Vec<Option<String>>) -> (r: Option<(usize, [u8; 32])>)
    ensures
        match r {
            Some((i, key)) => i < contents@.len() && key_in(contents@[i as int]) == Some(key@)
                && forall|j: int| 0 <= j < i ==> key_in(#[trigger] contents@[j]) is None,
            None => forall|j: int|
                0 <= j < contents@.len() ==> key_in(#[trigger] contents@[j]) is None,
        },
{
    let n: usize = contents.len();
    for i in 0..n
        invariant
            n == contents@.len(),
            forall|j: int| 0 <= j < i ==> key_in(#[trigger] contents@[j]) is None,
    {
        match &contents[i] {
            Some(s) => match parse_secret_key_hex(s) {
                Ok(key) => {
                    return Some((i, key));
                },
                Err(_) => {},
            },
            None => {},
        }
    }
    None
}

/// The key `r.0` is that of the first of the files with the contents `contents` that holds one, at
/// the place `r.1`; without a place, no file holds one.
pub open spec fn loads(contents: Seq<Option<String>>, r: ([u8; 32], Option<usize>)) -> bool {
    match r.1 {
        Some(i) => i < contents.len() && key_in(contents[i as int]) == Some(r.0@) && forall|j: int|
            0 <= j < i ==> key_in(#[trigger] contents[j]) is None,
        None => forall|j: int| 0 <= j < contents.len() ==> key_in(#[trigger] contents[j]) is None,
    }
}

/// The key of the server, and the place among the files from which it was read; where no file
/// holds a key it is a new one.
pub fn load_or_generate(contents: &Vec<Option<String>>) -> (r: ([u8; 32], Option<usize>))
    ensures
        loads(contents@, r),
{
    match first_key(contents) {
        Some((i, key)) => (key, Some(i)),
        None => (generate_secret_key(), None),
    }
}

/// The client ID that a file with the contents `content` holds.
pub open spec fn client_id_in(content: Option<String>) -> Option<Seq<char>> {
    match content {
        Some(s) => if trimmed(s@).len() > 0 {
            Some(trimmed(s@))
        } else {
            None
        },
        None => None,
    }
}

/// The client ID that a file holds: its text without surrounding white space, unless that is
/// empty. `None` is a file that could not be read.
pub fn stored_client_id(content: &Option<String>) -> (r: Option<String>)
    ensures
        text_in(r) == client_id_in(*content),
{
    match content {
        Some(s) => {
            let id = trim(s);
            if id.is_empty() {
                None
            } else {
                Some(id.to_owned())
            }
        },
        None => None,
    }
}

/// The text is an ID that a client gives itself: the digits of a key, in lower case.
pub open spec fn is_own_id(id: Seq<char>) -> bool {
    exists|key: Seq<u8>| key.len() == KEY_LEN && id == #[trigger] hex_text(key)
}

/// A new client ID: the digits of a random key.
pub fn new_client_id() -> (r: String)
    ensures
        is_own_id(r@),
{
    let key = generate_secret_key();
    encode_hex(&key)
}

/// The client's ID: the one that its file holds, else a new one. The second part tells whether
/// it is new, so that the file has to be written.
pub fn load_or_create_client_id(content: &Option<String>) -> (r: (String, bool))
    ensures
        match client_id_in(*content) {
            Some(id) => r.0@ == id && !r.1,
            None => is_own_id(r.0@) && r.1,
        },
{
    match stored_client_id(content) {
        Some(id) => (id, false),
        None => (new_client_id(), true),
    }
}

/// The file that holds the client's ID where none is given.
pub open spec fn client_id_place(config_dir: Option<String>) -> Seq<char> {
    path_below(
        path_below(
            match config_dir {
                Some(dir) => dir@,
                None => "."@,
            },
            "joycast"@,
        ),
        "client_id"@,
    )
}

/// The file that holds the client's ID: the given one, else one below the configuration
/// directory.
pub fn client_id_path(custom: &Option<String>, config_dir: &Option<String>) -> (r: String)
    ensures
        r@ == match *custom {
            Some(path) => path@,
            None => client_id_place(*config_dir),
        },
{
    match custom {
        Some(path) => path.clone(),
        None => {
            let base = match config_dir {
                Some(dir) => join_path(dir, "joycast"),
                None => join_path(".", "joycast"),
            };
            join_path(&base, "client_id")
        },
    }
}

/// A key that is kept under its text is read back as the same key, even where white space such
/// as a line end was put around it; so the server keeps its identity.
pub proof fn law_kept_key_is_read_back(front: Seq<char>, key: Seq<u8>, back: Seq<char>)
    requires
        key.len() == KEY_LEN,
        is_blank(front),
        is_blank(back),
    ensures
        key_of(front + hex_text(key) + back) == Some(key),
{
    law_hex_round_trip(key);
    law_node_text_is_plain(key);
    lemma_trimmed_between(front, hex_text(key), back);
}

/// A new key is kept in one of the files in which the server looks for its key.
pub proof fn law_new_key_is_looked_for(s: &Surroundings, system_file_exists: bool)
    ensures
        key_places(s).contains(new_key_place(s, system_file_exists)),
{
    let places = key_places(s);
    assert(places[0] == system_key_path());
    if let Some(dir) = text_in(s.config_dir) {
        assert(places[places.len() - 1] == user_key_path(dir));
    }
}

/// A key that was made because no file held one, and was written to its file, is the key that is
/// loaded at the next start; so the server keeps its Node ID.
pub proof fn law_new_key_is_loaded_again(
    s: &Surroundings,
    system_file_exists: bool,
    contents: Seq<Option<String>>,
    key: [u8; 32],
    text: String,
    later: Seq<Option<String>>,
    r: ([u8; 32], Option<usize>),
)
    requires
        contents.len() == key_places(s).len(),
        loads(contents, (key, None)),
        text@ == hex_text(key@),
        later.len() == contents.len(),
        forall|j: int|
            0 <= j < later.len() ==> #[trigger] later[j] == if key_places(s)[j] == new_key_place(
                s,
                system_file_exists,
            ) {
                Some(text)
            } else {
                contents[j]
            },
        loads(later, r),
    ensures
        r.0@ == key@,
        r.1 is Some,
        key_places(s)[r.1->0 as int] == new_key_place(s, system_file_exists),
{
    let places = key_places(s);
    let place = new_key_place(s, system_file_exists);
    law_new_key_is_looked_for(s, system_file_exists);
    law_kept_key_is_read_back(Seq::empty(), key@, Seq::empty());
    assert(Seq::<char>::empty() + text@ + Seq::<char>::empty() =~= text@);
    let at = choose|at: int| 0 <= at < places.len() && places[at] == place;
    assert(later[at] == Some(text));
    assert(key_in(later[at]) == Some(key@));
    assert forall|j: int| 0 <= j < later.len() && places[j] != place implies key_in(
        #[trigger] later[j],
    ) is None by {
        assert(key_in(contents[j]) is None);
    }
    if let Some(i) = r.1 {
        assert(places[i as int] == place);
        assert(later[i as int] == Some(text));
    }
}

/// An ID that a client gave itself has 64 hexadecimal digits and is the ID that is read from a
/// file with it, even where white space was put around it.
pub proof fn law_kept_client_id_is_read_back(
    id: Seq<char>,
    front: Seq<char>,
    back: Seq<char>,
    content: String,
)
    requires
        is_own_id(id),
        is_blank(front),
        is_blank(back),
        content@ == front + id + back,
    ensures
        id.len() == 2 * KEY_LEN,
        is_hex(id),
        client_id_in(Some(content)) == Some(id),
{
    let key = choose|key: Seq<u8>| key.len() == KEY_LEN && id == #[trigger] hex_text(key);
    law_hex_round_trip(key);
    law_node_text_is_plain(key);
    lemma_trimmed_between(front, id, back);
}

/// What is read from a file as the client's ID is never empty, has no white space at either end,
/// and is read again from a file that holds it.
pub proof fn law_read_client_id_is_stable(content: String, id: String)
    requires
        client_id_in(Some(content)) == Some(id@),
    ensures
        id@.len() > 0,
        trimmed(id@) == id@,
        client_id_in(Some(id)) == Some(id@),
{
    lemma_trimmed_twice(content@);
}

/// A text is a key exactly where it consists, between white space, of 64 hexadecimal digits of
/// either case; and the digits are then those of the key.
pub proof fn law_which_texts_are_keys(s: Seq<char>)
    ensures
        key_of(s) is Some <==> trimmed(s).len() == 64 && forall|i: int|
            0 <= i < trimmed(s).len() ==> hex_value(#[trigger] trimmed(s)[i]) is Some,
        key_of(s) matches Some(key) ==> key.len() == 32 && forall|i: int|
            0 <= i < 32 ==> #[trigger] key[i] == 16 * hex_value(trimmed(s)[2 * i])->0 + hex_value(
                trimmed(s)[2 * i + 1],
            )->0,
{
    if let Some(key) = key_of(s) {
        assert forall|i: int| 0 <= i < 32 implies #[trigger] key[i] == 16 * hex_value(
            trimmed(s)[2 * i],
        )->0 + hex_value(trimmed(s)[2 * i + 1])->0 by {
            assert(hex_value(trimmed(s)[2 * i]) is Some);
            assert(hex_value(trimmed(s)[2 * i + 1]) is Some);
        }
    }
}

/// Reading a key fails exactly where the text is none, and tells a text of the wrong length from
/// one that is not hexadecimal.
pub proof fn law_why_a_text_is_no_key(s: Seq<char>, r: Result<[u8; 32], KeyError>)
    requires
        reads_key(r, s),
    ensures
        r is Ok <==> key_of(s) is Some,
        r matches Ok(key) ==> key_of(s) == Some(key@),
        r matches Err(KeyError::WrongLength(n)) ==> 2 * n == trimmed(s).len() && n != 32,
        r matches Err(KeyError::NotHex(_)) ==> trimmed(s).len() % 2 == 1 || exists|i: int|
            0 <= i < trimmed(s).len() && hex_value(#[trigger] trimmed(s)[i]) is None,
{
}

/// A file holds a key exactly where it could be read and its text is one.
pub proof fn law_key_in_a_file(content: Option<String>)
    ensures
        content is None ==> key_in(content) is None,
        content matches Some(text) ==> key_in(content) == key_of(text@),
{
}

/// The server looks for its key in the system's file, then in that of the account that uses `sudo`,
/// then in that of the user, as far as there are such.
pub proof fn law_where_keys_are_looked_for(s: &Surroundings)
    ensures
        key_places(s).len() == 1 + (if s.account() is Some {
            1int
        } else {
            0
        }) + (if s.config_dir is Some {
            1int
        } else {
            0
        }),
        key_places(s)[0] == "/etc/joycast/server.key"@,
        s.account() matches Some(u) ==> key_places(s)[1] == "/home/"@ + u
            + "/.config/joycast/server.key"@,
        s.config_dir matches Some(dir) ==> key_places(s).last() == path_below(
            path_below(dir@, "joycast"@),
            "server.key"@,
        ),
{
}

/// A new key is kept for the whole system where the system's file exists, for `root`, for a service
/// and where the user has no directory; else it is kept for the user.
pub proof fn law_where_a_new_key_is_kept(s: &Surroundings, system_file_exists: bool)
    ensures
        ({
            let system = system_file_exists || text_in(s.user) == Some("root"@)
                || s.systemd_exec_pid || s.config_dir is None;
            &&& system ==> new_key_place(s, system_file_exists) == "/etc/joycast/server.key"@
            &&& !system ==> new_key_place(s, system_file_exists) == path_below(
                path_below(s.config_dir->0@, "joycast"@),
                "server.key"@,
            )
        }),
{
}

/// A file holds the client's ID exactly where it could be read and is not blank; the ID is then its
/// text without the white space around it.
pub proof fn law_client_id_in_a_file(content: Option<String>)
    ensures
        content is None ==> client_id_in(content) is None,
        content matches Some(text) ==> (client_id_in(content) is None <==> is_blank(text@)) && (
        client_id_in(content) matches Some(id) ==> id == trimmed(text@)),
{
    if let Some(text) = content {
        law_blank_text_leaves_nothing(text@);
    }
}

/// The file with the client's ID lies below the user's directory, or below the current one.
pub proof fn law_where_the_client_id_is_kept(config_dir: Option<String>)
    ensures
        config_dir matches Some(dir) ==> client_id_place(config_dir) == path_below(
            path_below(dir@, "joycast"@),
            "client_id"@,
        ),
        config_dir is None ==> client_id_place(config_dir) == path_below(
            path_below("."@, "joycast"@),
            "client_id"@,
        ),
{
}

/// An ID that a client gives itself is 64 digits and letters from a to f, in lower case.
pub proof fn law_own_ids_are_in_lower_case(id: Seq<char>)
    requires
        is_own_id(id),
    ensures
        id.len() == 64,
        forall|i: int|
            0 <= i < id.len() ==> '0' as u32 <= #[trigger] id[i] as u32 <= '9' as u32 || 'a' as u32
                <= id[i] as u32 <= 'f' as u32,
{
    let key = choose|key: Seq<u8>| key.len() == KEY_LEN && id == #[trigger] hex_text(key);
    law_hex_round_trip(key);
    assert forall|i: int| 0 <= i < id.len() implies '0' as u32 <= #[trigger] id[i] as u32
        <= '9' as u32 || 'a' as u32 <= id[i] as u32 <= 'f' as u32 by {
        assert(0 <= key[i / 2] as int / 16 < 16);
        assert(0 <= key[i / 2] as int % 16 < 16);
    }
}

/// The user is told how many bytes a key of the wrong length has.
pub proof fn law_length_is_told(n: usize)
    ensures
        KeyError::WrongLength(n).text()
            == "Secret key must be 32 bytes (64 hex characters), got "@ + number_text(n as nat)
            + " bytes"@,
{
}

/// The server takes the key of the first file that holds one, and makes a new one only where no file
/// does; what stands in later files is of no account.
pub proof fn law_which_key_is_loaded(
    contents: Seq<Option<String>>,
    later: Seq<Option<String>>,
    i: int,
    r: ([u8; 32], Option<usize>),
    again: ([u8; 32], Option<usize>),
)
    requires
        loads(contents, r),
        loads(contents.take(i + 1) + later, again),
        0 <= i < contents.len(),
        key_in(contents[i]) is Some,
        forall|j: int| 0 <= j < i ==> key_in(#[trigger] contents[j]) is None,
    ensures
        r.1 matches Some(k) && k == i,
        key_in(contents[i]) == Some(r.0@),
        again.0@ == r.0@,
        again.1 == r.1,
{
    let changed = contents.take(i + 1) + later;
    assert(changed[i] == contents[i]);
    assert forall|j: int| 0 <= j < i implies key_in(#[trigger] changed[j]) is None by {
        assert(changed[j] == contents[j]);
    }
    assert(key_in(changed[i]) is Some);
    assert(again.1 is Some);
    assert(again.1->0 == i);
}

} // verus!
