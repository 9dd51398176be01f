//! The key journal: what the journal stores about an issued key, how a
//! stored row is presented, and the decisions taken when a key is issued,
//! rotated, looked up or revoked.  The statements themselves run against the
//! database outside this library; here they are described by a model of the
//! journal table, over which the journal's invariant is proved.

use vstd::prelude::*;
use vstd::utf8::*;

use crate::crypto::{
    decrypt, decryption_outcome, encrypt, is_encryption_of, max_plaintext_len, CryptoError,
    MASTER_KEY_LEN, NONCE_SIZE,
};
use crate::text::{decimal_text, push_i64};

verus! {

/// The `replaced_by` code that marks a revoked key.
pub const REVOKE_ID: i64 = -111;

/// A journal entry as it is presented.
#[derive(Debug)]
pub struct IssuedKey {
    pub id: i64,
    pub user: String,
    pub key: String,
    pub key_hash: String,
    pub active: bool,
    pub reason: String,
    pub created_at: String,
}

/// A journal row as the database returns it: the key still encrypted, the
/// replacement code and timestamp still raw.
pub struct JournalRow {
    pub id: i64,
    pub user: String,
    pub key: Vec<u8>,
    pub key_hash: String,
    pub active: bool,
    pub replaced_by: Option<i64>,
    pub created_at: String,
}

// ---------------------------------------------------------------------------
// Presenting a row
// ---------------------------------------------------------------------------

/// Why a key is no longer active: revoked, replaced by another key, or
/// nothing to say.
pub open spec fn inactive_reason(replace_code: Option<i64>) -> Seq<char> {
    match replace_code {
        Some(id) => if id == REVOKE_ID {
            "revoked"@
        } else {
            "replaced by "@ + decimal_text(id as int)
        },
        None => Seq::<char>::empty(),
    }
}

/// The reason shown for a key, from its replacement code.
pub fn get_inactive_reason(replace_code: Option<i64>) -> (r: String)
    ensures
        r@ == inactive_reason(replace_code),
{
    match replace_code {
        Some(id) => {
            if id == REVOKE_ID {
                String::from_str("revoked")
            } else {
                let mut s = String::from_str("replaced by ");
                push_i64(&mut s, id);
                s
            }
        },
        None => String::new(),
    }
}

#[verifier::external_type_specification]
#[verifier::external_body]
pub struct ExNaiveDateTime(chrono::NaiveDateTime);

/// A timestamp parsed from RFC 3339 text, as the date and time of day written
/// in it (in the text's own offset), kept with that text.
pub struct Timestamp {
    parsed: chrono::NaiveDateTime,
    text: String,
}

impl View for Timestamp {
    type V = Seq<char>;

    closed spec fn view(&self) -> Seq<char> {
        self.text@
    }
}

/// Whether `DateTime::parse_from_rfc3339` accepts a text.
pub uninterp spec fn rfc3339_parses(text: Seq<char>) -> bool;

/// The layout in which the journal shows creation times.
pub open spec fn date_pattern() -> Seq<char> {
    "%Y-%m-%d:%H:%M:%S"@
}

/// The date and time of an RFC 3339 text in the journal's layout: the date
/// (its first 10 characters), a colon, and the time of day to the second (its
/// characters 11 to 18); the separator, fraction and offset are dropped.
pub open spec fn journal_layout(text: Seq<char>) -> Seq<char> {
    text.take(10) + ":"@ + text.subrange(11, 19)
}

/// `chrono::DateTime::parse_from_rfc3339`; whether it succeeds is named by
/// `rfc3339_parses`.  Its source refuses any text shorter than 19 bytes, and
/// an accepted text starts with 19 ASCII characters (date, separator, time of
/// day).  The parsed time is kept, as its local date and time (`naive_local`),
/// with its text.
#[verifier::external_body]
fn parse_rfc3339(text: &String) -> (r: Option<Timestamp>)
    ensures
        r is Some <==> rfc3339_parses(text@),
        encode_utf8(text@).len() < 19 ==> r is None,
        r matches Some(t) ==> t@ == text@ && text@.len() >= 19,
{
    match chrono::DateTime::parse_from_rfc3339(text.as_str()) {
        Ok(dt) => Some(Timestamp { parsed: dt.naive_local(), text: text.clone() }),
        Err(_) => None,
    }
}

impl Timestamp {
    /// `NaiveDateTime::format` with the journal's layout, printed to a string.
    /// The local date and time are those written in the source text (a
    /// 4-digit year, 2-digit month, day, hour, minute and second, a leap
    /// second printed as `60`), and the layout prints them zero-padded to the
    /// same widths, so the result is `journal_layout` of the source text.
    #[verifier::external_body]
    fn format(&self, pattern: &str) -> (r: String)
        requires
            pattern@ == date_pattern(),
        ensures
            r@ == journal_layout(self@),
    {
        self.parsed.format(pattern).to_string()
    }
}

/// How a creation time is shown: in the journal's layout when it is RFC 3339,
/// as stored otherwise.
pub open spec fn shown_date(created_at: Seq<char>) -> Seq<char> {
    if rfc3339_parses(created_at) {
        journal_layout(created_at)
    } else {
        created_at
    }
}

/// Shows a stored creation time in the journal's layout.
pub fn formatted_date(created_at: &String) -> (r: String)
    ensures
        r@ == shown_date(created_at@),
        encode_utf8(created_at@).len() < 19 ==> r@ == created_at@,
        rfc3339_parses(created_at@) ==> created_at@.len() >= 19 && r@.len() == 19,
{
    match parse_rfc3339(created_at) {
        Some(t) => {
            proof {
                reveal_strlit(":");
            }
            t.format("%Y-%m-%d:%H:%M:%S")
        },
        None => created_at.clone(),
    }
}

/// The query that lists the journal, newest first: every row, or only the
/// active ones.
pub open spec fn journal_query_text(show_all: bool) -> Seq<char> {
    if show_all {
        "SELECT id, user, key, key_hash, active, replaced_by, created_at FROM issued_keys ORDER BY id DESC"@
    } else {
        "SELECT id, user, key, key_hash, active, replaced_by, created_at FROM issued_keys WHERE active = 1 ORDER BY id DESC"@
    }
}

/// The query that lists the journal: all rows when `show_all`, else only the
/// active ones; newest first either way.
pub fn journal_query(show_all: bool) -> (r: &'static str)
    ensures
        r@ == journal_query_text(show_all),
{
    if show_all {
        "SELECT id, user, key, key_hash, active, replaced_by, created_at FROM issued_keys ORDER BY id DESC"
    } else {
        "SELECT id, user, key, key_hash, active, replaced_by, created_at FROM issued_keys WHERE active = 1 ORDER BY id DESC"
    }
}

/// The entry presented for a row whose key decrypted to `key`.
pub open spec fn presents(k: IssuedKey, row: JournalRow, key: Seq<char>) -> bool {
    &&& k.id == row.id
    &&& k.user@ == row.user@
    &&& k.key@ == key
    &&& k.key_hash@ == row.key_hash@
    &&& k.active == row.active
    &&& k.reason@ == inactive_reason(row.replaced_by)
    &&& k.created_at@ == shown_date(row.created_at@)
}

/// Law: a presented entry keeps the row's id, user, hash and active flag
/// as stored, shows the decrypted key, says nothing as its reason when the
/// row was never replaced, "revoked" for a revoked row, and the successor's
/// id for a replaced row, and shows an unparsable creation time as stored.
pub proof fn lemma_presented_entry_keeps_the_row(k: IssuedKey, row: JournalRow, key: Seq<char>, by_id: i64)
    requires
        presents(k, row, key),
    ensures
        k.id == row.id,
        k.user@ == row.user@,
        k.key@ == key,
        k.key_hash@ == row.key_hash@,
        k.active <==> row.active,
        row.replaced_by is None ==> k.reason@.len() == 0,
        row.replaced_by == Some(REVOKE_ID) ==> k.reason@ == "revoked"@,
        row.replaced_by == Some(by_id) && by_id != REVOKE_ID ==> k.reason@ == "replaced by "@
            + decimal_text(by_id as int),
        !rfc3339_parses(row.created_at@) ==> k.created_at@ == row.created_at@,
{
}

/// Presents a journal row: decrypts its key under the master key, explains
/// its replacement code and reformats its creation time.
pub fn issued_key_from_row(row: JournalRow, master_key: &[u8]) -> (r: Result<IssuedKey, CryptoError>)
    requires
        row.key@.len() >= NONCE_SIZE ==> master_key@.len() == MASTER_KEY_LEN,
    ensures
        match decryption_outcome(master_key@, row.key@) {
            Ok(key) => (r matches Ok(k) && presents(k, row, key)),
            Err(e) => r == Err::<IssuedKey, CryptoError>(e),
        },
{
    let key = match decrypt(row.key.as_slice(), master_key) {
        Ok(k) => k,
        Err(e) => {
            return Err(e);
        },
    };
    let reason = get_inactive_reason(row.replaced_by);
    let created_at = formatted_date(&row.created_at);
    Ok(
        IssuedKey {
            id: row.id,
            user: row.user,
            key,
            key_hash: row.key_hash,
            active: row.active,
            reason,
            created_at,
        },
    )
}

// ---------------------------------------------------------------------------
// Decisions taken against the journal
// ---------------------------------------------------------------------------

/// Why a journal operation was refused.
#[derive(Debug)]
pub enum JournalError {
    /// The user already has an active key, so none is issued.
    AlreadyActive(String),
    /// The user has no active key.
    NoActiveKey(String),
    /// The key could not be encrypted or decrypted.
    Crypto(CryptoError),
}

/// A row to insert as the user's active key.
pub struct NewKeyRow {
    pub user: String,
    pub key: Vec<u8>,
    pub key_hash: String,
    pub created_at: String,
}

/// A row to mark inactive, with the code of what replaced it.
#[derive(Debug, Clone, Copy, PartialEq, Eq, Structural)]
pub struct Deactivation {
    pub id: i64,
    pub replaced_by: i64,
}

/// `row` stores `key` for `user`, encrypted under the master key.
pub open spec fn is_new_row_for(
    row: NewKeyRow,
    user: Seq<char>,
    key: Seq<char>,
    key_hash: Seq<char>,
    master_key: Seq<u8>,
    created_at: Seq<char>,
) -> bool {
    &&& row.user@ == user
    &&& is_encryption_of(master_key, key, row.key@)
    &&& decryption_outcome(master_key, row.key@) == Ok::<Seq<char>, CryptoError>(key)
    &&& row.key_hash@ == key_hash
    &&& row.created_at@ == created_at
}

fn encrypted_row(user: &str, key: &str, key_hash: &str, master_key: &[u8], created_at: &str) -> (r: Result<NewKeyRow, JournalError>)
    requires
        master_key@.len() == MASTER_KEY_LEN,
    ensures
        r is Ok <==> encode_utf8(key@).len() <= max_plaintext_len(),
        r matches Err(e) ==> e == JournalError::Crypto(CryptoError::EncryptionFailed),
        r matches Ok(row) ==> is_new_row_for(row, user@, key@, key_hash@, master_key@, created_at@),
{
    match encrypt(key, master_key) {
        Ok(encrypted) => Ok(
            NewKeyRow {
                user: String::from_str(user),
                key: encrypted,
                key_hash: String::from_str(key_hash),
                created_at: String::from_str(created_at),
            },
        ),
        Err(e) => Err(JournalError::Crypto(e)),
    }
}

/// Issuing a key: `active_id` is the user's active key, if the journal has
/// one.  The key is encrypted first; then a user who already has an active
/// key is refused; otherwise the new row is returned for insertion.
pub fn plan_issue(
    user: &str,
    active_id: Option<i64>,
    key: &str,
    key_hash: &str,
    master_key: &[u8],
    created_at: &str,
) -> (r: Result<NewKeyRow, JournalError>)
    requires
        master_key@.len() == MASTER_KEY_LEN,
    ensures
        encode_utf8(key@).len() > max_plaintext_len() ==> (r matches Err(e) && e
            == JournalError::Crypto(CryptoError::EncryptionFailed)),
        encode_utf8(key@).len() <= max_plaintext_len() && active_id is Some ==> (r matches Err(e)
            && e matches JournalError::AlreadyActive(u) && u@ == user@),
        encode_utf8(key@).len() <= max_plaintext_len() && active_id is None ==> (r matches Ok(row)
            && is_new_row_for(row, user@, key@, key_hash@, master_key@, created_at@)),
        r matches Ok(row) ==> active_id is None && row.user@ == user@,
{
    let row = encrypted_row(user, key, key_hash, master_key, created_at);
    match row {
        Err(e) => Err(e),
        Ok(row) => {
            if active_id.is_some() {
                Err(JournalError::AlreadyActive(String::from_str(user)))
            } else {
                Ok(row)
            }
        },
    }
}

/// Rotating a key: the new key is encrypted and inserted as active whether
/// or not the user had a key.
pub fn plan_rotation(
    user: &str,
    new_key: &str,
    key_hash: &str,
    master_key: &[u8],
    created_at: &str,
) -> (r: Result<NewKeyRow, JournalError>)
    requires
        master_key@.len() == MASTER_KEY_LEN,
    ensures
        r is Ok <==> encode_utf8(new_key@).len() <= max_plaintext_len(),
        r matches Err(e) ==> e == JournalError::Crypto(CryptoError::EncryptionFailed),
        r matches Ok(row) ==> is_new_row_for(row, user@, new_key@, key_hash@, master_key@, created_at@),
{
    encrypted_row(user, new_key, key_hash, master_key, created_at)
}

/// The deactivation that follows a rotation: the user's previous active key,
/// if any, replaced by the key `new_id`.
pub open spec fn replacement_of(old_id: Option<i64>, new_id: i64) -> Option<Deactivation> {
    match old_id {
        Some(old) => Some(Deactivation { id: old, replaced_by: new_id }),
        None => None::<Deactivation>,
    }
}

/// After a rotation inserted the key `new_id`, the user's previous active
/// key, if any, is marked as replaced by it.
pub fn replacement(old_id: Option<i64>, new_id: i64) -> (r: Option<Deactivation>)
    ensures
        r == replacement_of(old_id, new_id),
{
    match old_id {
        Some(old) => Some(Deactivation { id: old, replaced_by: new_id }),
        None => None,
    }
}

/// Revoking a key marks it inactive with the revocation code.
pub fn revocation(id: i64) -> (r: Deactivation)
    ensures
        r == (Deactivation { id, replaced_by: REVOKE_ID }),
{
    Deactivation { id, replaced_by: REVOKE_ID }
}

/// The user's active key, from what the lookup found: none is an error;
/// otherwise the stored value is decrypted.
pub fn active_key_from_lookup(user: &str, found: Option<Vec<u8>>, master_key: &[u8]) -> (r: Result<String, JournalError>)
    requires
        found matches Some(v) && v@.len() >= NONCE_SIZE ==> master_key@.len() == MASTER_KEY_LEN,
    ensures
        match found {
            None => (r matches Err(e) && e matches JournalError::NoActiveKey(u) && u@ == user@),
            Some(stored) => match decryption_outcome(master_key@, stored@) {
                Ok(k) => (r matches Ok(s) && s@ == k),
                Err(e) => (r matches Err(je) && je == JournalError::Crypto(e)),
            },
        },
{
    match found {
        None => Err(JournalError::NoActiveKey(String::from_str(user))),
        Some(stored) => match decrypt(stored.as_slice(), master_key) {
            Ok(k) => Ok(k),
            Err(e) => Err(JournalError::Crypto(e)),
        },
    }
}

/// Law: the key deactivated by a revocation reads as revoked, and the key
/// deactivated by a rotation reads as replaced by the new key's id (for any
/// new id other than the revocation code, which the journal's ids never take).
pub proof fn lemma_deactivation_reasons(id: i64, old_id: i64, new_id: i64)
    requires
        new_id != REVOKE_ID,
    ensures
        inactive_reason(Some((Deactivation { id, replaced_by: REVOKE_ID }).replaced_by)) == "revoked"@,
        inactive_reason(Some((Deactivation { id: old_id, replaced_by: new_id }).replaced_by))
            == "replaced by "@ + decimal_text(new_id as int),
{
}

// ---------------------------------------------------------------------------
// A model of the journal table and its invariant
// ---------------------------------------------------------------------------

/// A row of the journal table, as far as the invariant is concerned.
pub struct StoredKey {
    pub id: int,
    pub user: Seq<char>,
    pub active: bool,
    pub replaced_by: Option<int>,
}

/// Row ids are distinct (the table's primary key).
pub open spec fn ids_distinct(t: Seq<StoredKey>) -> bool {
    forall|i: int, j: int| 0 <= i < t.len() && 0 <= j < t.len() && i != j ==> #[trigger] t[i].id != #[trigger] t[j].id
}

/// Every user has at most one active key.
pub open spec fn one_active_per_user(t: Seq<StoredKey>) -> bool {
    forall|i: int, j: int|
        0 <= i < t.len() && 0 <= j < t.len() && i != j && #[trigger] t[i].active && #[trigger] t[j].active
            ==> t[i].user != t[j].user
}

/// The journal's invariant.
pub open spec fn journal_ok(t: Seq<StoredKey>) -> bool {
    ids_distinct(t) && one_active_per_user(t)
}

/// The user has no active key.
pub open spec fn no_active_key(t: Seq<StoredKey>, user: Seq<char>) -> bool {
    forall|i: int| 0 <= i < t.len() && #[trigger] t[i].active ==> t[i].user != user
}

/// The active key of the user has this id (what the lookup of the user's
/// active key finds).
pub open spec fn active_key_is(t: Seq<StoredKey>, user: Seq<char>, id: int) -> bool {
    exists|i: int| 0 <= i < t.len() && #[trigger] t[i].id == id && t[i].active && t[i].user == user
}

/// `id` is not yet used in the table.
pub open spec fn fresh_id(t: Seq<StoredKey>, id: int) -> bool {
    forall|i: int| 0 <= i < t.len() ==> #[trigger] t[i].id != id
}

/// The table after inserting an active key for a user.
pub open spec fn after_insert(t: Seq<StoredKey>, user: Seq<char>, id: int) -> Seq<StoredKey> {
    t.push(StoredKey { id, user, active: true, replaced_by: None })
}

/// The table after marking a row inactive with a replacement code.
pub open spec fn after_deactivation(t: Seq<StoredKey>, d: Deactivation) -> Seq<StoredKey> {
    t.map_values(
        |r: StoredKey|
            if r.id == d.id as int {
                StoredKey { active: false, replaced_by: Some(d.replaced_by as int), ..r }
            } else {
                r
            },
    )
}

/// Law: issuing keeps the invariant.  A key is only inserted when the user
/// had none active, and the new row gets a fresh id.
pub proof fn lemma_issue_keeps_journal_ok(t: Seq<StoredKey>, user: Seq<char>, id: int)
    requires
        journal_ok(t),
        no_active_key(t, user),
        fresh_id(t, id),
    ensures
        journal_ok(after_insert(t, user, id)),
        active_key_is(after_insert(t, user, id), user, id),
{
    let u = after_insert(t, user, id);
    assert(u[t.len() as int].id == id);
    assert forall|i: int, j: int|
        0 <= i < u.len() && 0 <= j < u.len() && i != j && #[trigger] u[i].active && #[trigger] u[j].active
        implies u[i].user != u[j].user by {
        if i < t.len() && j < t.len() {
            assert(t[i] == u[i] && t[j] == u[j]);
        } else if i < t.len() {
            assert(t[i] == u[i]);
        } else {
            assert(t[j] == u[j]);
        }
    }
    assert forall|i: int, j: int| 0 <= i < u.len() && 0 <= j < u.len() && i != j implies #[trigger] u[i].id
        != #[trigger] u[j].id by {
        if i < t.len() && j < t.len() {
            assert(t[i] == u[i] && t[j] == u[j]);
        } else if i < t.len() {
            assert(t[i] == u[i]);
        } else {
            assert(t[j] == u[j]);
        }
    }
}

/// The table after an issue, given what the lookup of the user's active key
/// found: a key is inserted only when none was found; otherwise the issue is
/// refused and the table stays as it was.
pub open spec fn after_issue(t: Seq<StoredKey>, user: Seq<char>, found: Option<int>, id: int) -> Seq<
    StoredKey,
> {
    match found {
        Some(_) => t,
        None => after_insert(t, user, id),
    }
}

/// Law: whatever an issue decides, every user still has at most one active
/// key, and the user has an active key afterwards.
pub proof fn lemma_issue_outcome_keeps_journal_ok(
    t: Seq<StoredKey>,
    user: Seq<char>,
    found: Option<int>,
    id: int,
)
    requires
        journal_ok(t),
        match found {
            Some(x) => active_key_is(t, user, x),
            None => no_active_key(t, user),
        },
        fresh_id(t, id),
    ensures
        journal_ok(after_issue(t, user, found, id)),
        found matches Some(x) ==> active_key_is(after_issue(t, user, found, id), user, x),
        found is None ==> active_key_is(after_issue(t, user, found, id), user, id),
{
    if found is None {
        lemma_issue_keeps_journal_ok(t, user, id);
    }
}

/// Law: marking a row inactive keeps the invariant.
pub proof fn lemma_deactivation_keeps_journal_ok(t: Seq<StoredKey>, d: Deactivation)
    requires
        journal_ok(t),
    ensures
        journal_ok(after_deactivation(t, d)),
{
    let u = after_deactivation(t, d);
    assert forall|i: int, j: int|
        0 <= i < u.len() && 0 <= j < u.len() && i != j && #[trigger] u[i].active && #[trigger] u[j].active
        implies u[i].user != u[j].user by {
        assert(t[i].active && t[j].active);
    }
    assert forall|i: int, j: int| 0 <= i < u.len() && 0 <= j < u.len() && i != j implies #[trigger] u[i].id
        != #[trigger] u[j].id by {
        assert(u[i].id == t[i].id && u[j].id == t[j].id);
    }
}

/// Law: a rotation keeps the invariant and leaves the new key as the user's
/// only active key, with the previous one marked as replaced by it.  The
/// rotation inserts the new key, then deactivates the key that the lookup
/// found before the insertion.
pub proof fn lemma_rotation_keeps_journal_ok(
    t: Seq<StoredKey>,
    user: Seq<char>,
    old_id: Option<i64>,
    new_id: i64,
)
    requires
        journal_ok(t),
        fresh_id(t, new_id as int),
        match old_id {
            Some(old) => active_key_is(t, user, old as int),
            None => no_active_key(t, user),
        },
    ensures
        ({
            let inserted = after_insert(t, user, new_id as int);
            let rotated = match old_id {
                Some(old) => after_deactivation(inserted, Deactivation { id: old, replaced_by: new_id }),
                None => inserted,
            };
            &&& journal_ok(rotated)
            &&& active_key_is(rotated, user, new_id as int)
            &&& forall|i: int|
                0 <= i < rotated.len() && #[trigger] rotated[i].active && rotated[i].user == user
                    ==> rotated[i].id == new_id
            &&& rotated.len() == t.len() + 1
            &&& forall|i: int| 0 <= i < t.len() && #[trigger] t[i].user != user ==> rotated[i] == t[i]
        }),
{
    let inserted = after_insert(t, user, new_id as int);
    match old_id {
        None => {
            lemma_issue_keeps_journal_ok(t, user, new_id as int);
            assert forall|i: int| 0 <= i < t.len() && #[trigger] t[i].user != user implies inserted[i]
                == t[i] by {}
            assert forall|i: int|
                0 <= i < inserted.len() && #[trigger] inserted[i].active && inserted[i].user == user
                implies inserted[i].id == new_id by {
                if i < t.len() {
                    assert(t[i] == inserted[i]);
                }
            }
        },
        Some(old) => {
            let d = Deactivation { id: old, replaced_by: new_id };
            let rotated = after_deactivation(inserted, d);
            let k = choose|k: int| 0 <= k < t.len() && #[trigger] t[k].id == old as int && t[k].active && t[k].user == user;
            assert(inserted[k] == t[k]);
            assert(inserted[t.len() as int].id == new_id);
            // The invariant of the table with both keys active, except for the
            // two rows of this user.
            assert(ids_distinct(inserted)) by {
                assert forall|i: int, j: int| 0 <= i < inserted.len() && 0 <= j < inserted.len() && i != j
                    implies #[trigger] inserted[i].id != #[trigger] inserted[j].id by {
                    if i < t.len() && j < t.len() {
                        assert(t[i] == inserted[i] && t[j] == inserted[j]);
                    } else if i < t.len() {
                        assert(t[i] == inserted[i]);
                    } else {
                        assert(t[j] == inserted[j]);
                    }
                }
            }
            assert forall|i: int, j: int|
                0 <= i < rotated.len() && 0 <= j < rotated.len() && i != j && #[trigger] rotated[i].active
                    && #[trigger] rotated[j].active implies rotated[i].user != rotated[j].user by {
                assert(inserted[i].active && inserted[j].active);
                assert(inserted[i].id != old as int && inserted[j].id != old as int);
                if i < t.len() && j < t.len() {
                    assert(t[i] == inserted[i] && t[j] == inserted[j]);
                } else if i < t.len() {
                    assert(t[i] == inserted[i]);
                    if t[i].user == user {
                        assert(t[k].active && t[i].active && t[k].user == t[i].user);
                        assert(i == k);
                    }
                } else {
                    assert(t[j] == inserted[j]);
                    if t[j].user == user {
                        assert(j == k);
                    }
                }
            }
            assert forall|i: int, j: int| 0 <= i < rotated.len() && 0 <= j < rotated.len() && i != j
                implies #[trigger] rotated[i].id != #[trigger] rotated[j].id by {
                assert(rotated[i].id == inserted[i].id && rotated[j].id == inserted[j].id);
            }
            assert(rotated[t.len() as int].id == new_id);
            assert(rotated[t.len() as int].active);
            assert forall|i: int|
                0 <= i < rotated.len() && #[trigger] rotated[i].active && rotated[i].user == user
                implies rotated[i].id == new_id by {
                if i < t.len() {
                    assert(inserted[i] == t[i]);
                    assert(t[i].active);
                    if i != k {
                        assert(t[k].active && t[k].user == t[i].user);
                    }
                }
            }
            assert forall|i: int| 0 <= i < t.len() && #[trigger] t[i].user != user implies rotated[i]
                == t[i] by {
                assert(inserted[i] == t[i]);
                assert(i != k);
                assert(t[i].id != t[k].id);
            }
        },
    }
}

// ---------------------------------------------------------------------------
// The decisions above, applied to the table
// ---------------------------------------------------------------------------

/// The table after an issue decided by `plan_issue`: the planned row is
/// inserted with the id the database gives it; a refused issue changes
/// nothing.
pub open spec fn issue_effect(t: Seq<StoredKey>, planned: Result<NewKeyRow, JournalError>, id: int) -> Seq<
    StoredKey,
> {
    match planned {
        Ok(row) => after_insert(t, row.user@, id),
        Err(_) => t,
    }
}

/// The table after a rotation decided by `plan_rotation` and `replacement`:
/// the planned row is inserted with the id the database gives it, then the
/// planned deactivation, if any, is applied; a refused rotation changes
/// nothing.
pub open spec fn rotation_effect(
    t: Seq<StoredKey>,
    planned: Result<NewKeyRow, JournalError>,
    new_id: int,
    deactivation: Option<Deactivation>,
) -> Seq<StoredKey> {
    match planned {
        Ok(row) => {
            let inserted = after_insert(t, row.user@, new_id);
            match deactivation {
                Some(d) => after_deactivation(inserted, d),
                None => inserted,
            }
        },
        Err(_) => t,
    }
}

/// Law: an issue as `plan_issue` decides it keeps the journal's invariant,
/// and afterwards the user has an active key (the one found, or the new one).
/// `found` is what the lookup of the user's active key returned, and `id` is
/// the id the database gives a new row.
pub proof fn lemma_planned_issue_keeps_journal_ok(
    t: Seq<StoredKey>,
    user: Seq<char>,
    found: Option<i64>,
    planned: Result<NewKeyRow, JournalError>,
    id: int,
)
    requires
        journal_ok(t),
        match found {
            Some(x) => active_key_is(t, user, x as int),
            None => no_active_key(t, user),
        },
        fresh_id(t, id),
        planned matches Ok(row) ==> found is None && row.user@ == user,
    ensures
        journal_ok(issue_effect(t, planned, id)),
        planned is Ok ==> active_key_is(issue_effect(t, planned, id), user, id),
        found matches Some(x) ==> active_key_is(issue_effect(t, planned, id), user, x as int),
        planned is Err ==> issue_effect(t, planned, id) == t,
{
    if planned is Ok {
        lemma_issue_keeps_journal_ok(t, user, id);
    }
}

/// Law: a rotation as `plan_rotation` and `replacement` decide it keeps the
/// journal's invariant; when it is carried out, the new key is the user's
/// only active key and the rows of other users are unchanged.  `old_id` is
/// what the lookup of the user's active key returned before the insertion,
/// and `new_id` the id the database gives the new row.
pub proof fn lemma_planned_rotation_keeps_journal_ok(
    t: Seq<StoredKey>,
    user: Seq<char>,
    old_id: Option<i64>,
    planned: Result<NewKeyRow, JournalError>,
    new_id: i64,
    deactivation: Option<Deactivation>,
)
    requires
        journal_ok(t),
        fresh_id(t, new_id as int),
        match old_id {
            Some(old) => active_key_is(t, user, old as int),
            None => no_active_key(t, user),
        },
        planned matches Ok(row) ==> row.user@ == user,
        deactivation == replacement_of(old_id, new_id),
    ensures
        ({
            let after = rotation_effect(t, planned, new_id as int, deactivation);
            &&& journal_ok(after)
            &&& planned is Ok ==> active_key_is(after, user, new_id as int)
            &&& planned is Ok ==> forall|i: int|
                0 <= i < after.len() && #[trigger] after[i].active && after[i].user == user
                    ==> after[i].id == new_id
            &&& forall|i: int| 0 <= i < t.len() && #[trigger] t[i].user != user ==> after[i] == t[i]
        }),
{
    if planned is Ok {
        lemma_rotation_keeps_journal_ok(t, user, old_id, new_id);
    }
}

} // verus!
