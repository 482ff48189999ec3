//! Games and scores: their fields, validation rules and soft-delete state.
//! Instants are carried as RFC 3339 text, the form in which they reach
//! cursors and responses.

use rand::Rng;
use vstd::prelude::*;
use vstd::std_specs::iter::IteratorSpec;
use vstd::string::*;

use crate::text::{blank, byte_len, is_blank, utf8_len};

verus! {

broadcast use vstd::string::group_string_axioms;

/// Relies on chrono's `Utc::now`, written with `to_rfc3339`: the current
/// instant as RFC 3339 text.
#[verifier::external_body]
fn now_rfc3339() -> (r: String) {
    chrono::Utc::now().to_rfc3339()
}

/// Relies on rand's `thread_rng().gen_range(0..16)`: a value drawn from the
/// half-open range.
#[verifier::external_body]
fn random_below_16() -> (r: u32)
    ensures
        r < 16,
{
    rand::thread_rng().gen_range(0..16)
}

/// Lower-case form of a text under Unicode case mapping.
pub uninterp spec fn lower_of(s: Seq<char>) -> Seq<char>;

/// Relies on `str::to_lowercase`: the result depends on the characters
/// alone.
#[verifier::external_body]
fn lowercase(s: &str) -> (r: String)
    ensures
        r@ == lower_of(s@),
{
    s.to_lowercase()
}

/// Lower-case hexadecimal digit character of a value below 16.
pub open spec fn hex_char(d: u32) -> char {
    if d == 0 { '0' } else if d == 1 { '1' } else if d == 2 { '2' } else if d == 3 { '3' }
    else if d == 4 { '4' } else if d == 5 { '5' } else if d == 6 { '6' } else if d == 7 { '7' }
    else if d == 8 { '8' } else if d == 9 { '9' } else if d == 10 { 'a' } else if d == 11 { 'b' }
    else if d == 12 { 'c' } else if d == 13 { 'd' } else if d == 14 { 'e' } else { 'f' }
}

/// Whether a character is a lower-case hexadecimal digit.
pub open spec fn is_hex_char(c: char) -> bool {
    ('0' <= c && c <= '9') || ('a' <= c && c <= 'f')
}

/// Whether a character is an ASCII digit or lower-case ASCII letter.
pub open spec fn is_digit_or_lower(c: char) -> bool {
    ('0' <= c && c <= '9') || ('a' <= c && c <= 'z')
}

/// Whether a character is an ASCII letter or digit.
pub open spec fn is_ascii_alnum(c: char) -> bool {
    ('0' <= c && c <= '9') || ('a' <= c && c <= 'z') || ('A' <= c && c <= 'Z')
}

/// A well-formed hex id: six bytes, each an ASCII digit or lower-case letter.
pub open spec fn hex_id_valid(s: Seq<char>) -> bool {
    utf8_len(s) == 6 && forall|i: int| 0 <= i < s.len() ==> is_digit_or_lower(#[trigger] s[i])
}

/// What a hex id given in any case normalizes to, if it is acceptable: six
/// bytes whose lower-case form is made of ASCII letters and digits.
pub open spec fn normalized_hex_id(s: Seq<char>) -> Option<Seq<char>> {
    if utf8_len(s) != 6 {
        None
    } else if forall|i: int| 0 <= i < lower_of(s).len() ==> is_ascii_alnum(#[trigger] lower_of(s)[i]) {
        Some(lower_of(s))
    } else {
        None
    }
}

fn hex_digit_text(d: u32) -> (r: &'static str)
    requires
        d < 16,
    ensures
        r@ == seq![hex_char(d)],
{
    proof {
        reveal_strlit("0"); reveal_strlit("1"); reveal_strlit("2"); reveal_strlit("3");
        reveal_strlit("4"); reveal_strlit("5"); reveal_strlit("6"); reveal_strlit("7");
        reveal_strlit("8"); reveal_strlit("9"); reveal_strlit("a"); reveal_strlit("b");
        reveal_strlit("c"); reveal_strlit("d"); reveal_strlit("e"); reveal_strlit("f");
    }
    let r = if d == 0 { "0" } else if d == 1 { "1" } else if d == 2 { "2" } else if d == 3 { "3" }
    else if d == 4 { "4" } else if d == 5 { "5" } else if d == 6 { "6" } else if d == 7 { "7" }
    else if d == 8 { "8" } else if d == 9 { "9" } else if d == 10 { "a" } else if d == 11 { "b" }
    else if d == 12 { "c" } else if d == 13 { "d" } else if d == 14 { "e" } else { "f" };
    assert(r@ =~= seq![hex_char(d)]);
    r
}

fn all_digit_or_lower(s: &str) -> (r: bool)
    ensures
        r == forall|i: int| 0 <= i < s@.len() ==> is_digit_or_lower(#[trigger] s@[i]),
{
    let mut it = s.chars();
    let ghost mut k: int = 0;
    loop
        invariant
            0 <= k <= s@.len(),
            it.remaining() == s@.skip(k),
            forall|j: int| 0 <= j < k ==> is_digit_or_lower(#[trigger] s@[j]),
        decreases s@.len() - k,
    {
        match it.next() {
            Some(c) => {
                assert(c == s@[k]);
                if !(('0' <= c && c <= '9') || ('a' <= c && c <= 'z')) {
                    return false;
                }
                proof {
                    assert(s@.skip(k).drop_first() =~= s@.skip(k + 1));
                    k = k + 1;
                }
            },
            None => {
                assert(s@.skip(k).len() == 0);
                return true;
            },
        }
    }
}

fn all_ascii_alnum(s: &str) -> (r: bool)
    ensures
        r == forall|i: int| 0 <= i < s@.len() ==> is_ascii_alnum(#[trigger] s@[i]),
{
    let mut it = s.chars();
    let ghost mut k: int = 0;
    loop
        invariant
            0 <= k <= s@.len(),
            it.remaining() == s@.skip(k),
            forall|j: int| 0 <= j < k ==> is_ascii_alnum(#[trigger] s@[j]),
        decreases s@.len() - k,
    {
        match it.next() {
            Some(c) => {
                assert(c == s@[k]);
                if !(('0' <= c && c <= '9') || ('a' <= c && c <= 'z') || ('A' <= c && c <= 'Z')) {
                    return false;
                }
                proof {
                    assert(s@.skip(k).drop_first() =~= s@.skip(k + 1));
                    k = k + 1;
                }
            },
            None => {
                assert(s@.skip(k).len() == 0);
                return true;
            },
        }
    }
}

/// A game as the listing sees it.
#[derive(Debug, Clone)]
pub struct Game {
    pub id: i64,
    pub hex_id: String,
    pub name: String,
    pub description: Option<String>,
    /// RFC 3339 text of the creation instant.
    pub created_at: String,
    /// RFC 3339 text of the last change.
    pub updated_at: String,
    /// RFC 3339 text of the soft deletion, if the game is deleted.
    pub deleted_at: Option<String>,
}

/// Fields of a game to create.
#[derive(Debug, Clone)]
pub struct CreateGame {
    pub name: String,
    pub description: Option<String>,
}

/// Fields of a game to change; absent fields stay as they are.
#[derive(Debug, Clone)]
pub struct UpdateGame {
    pub name: Option<String>,
    pub description: Option<String>,
}

/// The message of an error.
pub open spec fn message_is(r: Result<(), String>, m: Seq<char>) -> bool {
    r matches Err(e) && e@ == m
}

impl Game {
    /// The hex id spelled by six digit values below 16, in order.
    pub fn hex_id_from_digits(digits: &Vec<u32>) -> (r: String)
        requires
            digits@.len() == 6,
            forall|i: int| 0 <= i < 6 ==> #[trigger] digits@[i] < 16,
        ensures
            r@ == digits@.map_values(|d: u32| hex_char(d)),
    {
        let mut s = String::new();
        let mut i: usize = 0;
        while i < 6
            invariant
                i <= 6,
                digits@.len() == 6,
                forall|j: int| 0 <= j < 6 ==> #[trigger] digits@[j] < 16,
                s@ == digits@.take(i as int).map_values(|d: u32| hex_char(d)),
            decreases 6 - i,
        {
            let t = hex_digit_text(digits[i]);
            s.append(t);
            assert(digits@.take(i + 1) =~= digits@.take(i as int).push(digits@[i as int]));
            assert(s@ =~= digits@.take(i + 1).map_values(|d: u32| hex_char(d)));
            i = i + 1;
        }
        assert(digits@.take(6) =~= digits@);
        s
    }

    /// A fresh hex id: six random lower-case hexadecimal digits.
    pub fn generate_hex_id() -> (r: String)
        ensures
            r@.len() == 6,
            forall|i: int| 0 <= i < 6 ==> is_hex_char(#[trigger] r@[i]),
    {
        let mut digits: Vec<u32> = Vec::new();
        let mut i: usize = 0;
        while i < 6
            invariant
                i <= 6,
                digits@.len() == i,
                forall|j: int| 0 <= j < i ==> #[trigger] digits@[j] < 16,
            decreases 6 - i,
        {
            digits.push(random_below_16());
            i = i + 1;
        }
        let r = Self::hex_id_from_digits(&digits);
        assert forall|i: int| 0 <= i < 6 implies is_hex_char(#[trigger] r@[i]) by {
            assert(r@[i] == hex_char(digits@[i]));
        }
        r
    }

    /// A new, visible game with a fresh hex id, created and last changed
    /// now. Its id is set by the store.
    pub fn new(name: String, description: Option<String>) -> (r: Self)
        ensures
            r.id == 0,
            r.name == name,
            r.description == description,
            r.hex_id@.len() == 6,
            forall|i: int| 0 <= i < 6 ==> is_hex_char(#[trigger] r.hex_id@[i]),
            r.created_at == r.updated_at,
            r.deleted_at is None,
    {
        let now = now_rfc3339();
        Self {
            id: 0,
            hex_id: Self::generate_hex_id(),
            name,
            description,
            created_at: now.clone(),
            updated_at: now,
            deleted_at: None,
        }
    }

    /// Accepts a hex id given in any case: six bytes whose lower-case form
    /// holds only ASCII letters and digits. Returns that lower-case form.
    pub fn normalize_and_validate_hex_id(hex_id: &str) -> (r: Result<String, String>)
        ensures
            match normalized_hex_id(hex_id@) {
                Some(n) => r matches Ok(s) && s@ == n,
                None => r is Err,
            },
            utf8_len(hex_id@) != 6 ==> (r matches Err(e) && e@
                == "Hex ID must be exactly 6 characters"@),
    {
        if byte_len(hex_id) != 6 {
            return Err(String::from_str("Hex ID must be exactly 6 characters"));
        }
        let normalized = lowercase(hex_id);
        if !all_ascii_alnum(normalized.as_str()) {
            return Err(
                String::from_str("Hex ID must contain only alphanumeric characters (0-9, a-z, A-Z)"),
            );
        }
        Ok(normalized)
    }

    /// Checks that a hex id is six bytes of ASCII digits and lower-case
    /// letters.
    pub fn validate_hex_id(hex_id: &str) -> (r: Result<(), String>)
        ensures
            r is Ok <==> hex_id_valid(hex_id@),
            utf8_len(hex_id@) != 6 ==> message_is(r, "Hex ID must be exactly 6 characters"@),
            utf8_len(hex_id@) == 6 && !hex_id_valid(hex_id@) ==> message_is(
                r,
                "Hex ID must contain only lowercase alphanumeric characters (0-9, a-z)"@,
            ),
    {
        if byte_len(hex_id) != 6 {
            return Err(String::from_str("Hex ID must be exactly 6 characters"));
        }
        if !all_digit_or_lower(hex_id) {
            return Err(
                String::from_str(
                    "Hex ID must contain only lowercase alphanumeric characters (0-9, a-z)",
                ),
            );
        }
        Ok(())
    }

    /// Checks that a game name is not blank and takes at most 255 bytes.
    pub fn validate_name(name: &str) -> (r: Result<(), String>)
        ensures
            r is Ok <==> !blank(name@) && utf8_len(name@) <= 255,
            blank(name@) ==> message_is(r, "Game name cannot be empty"@),
            !blank(name@) && utf8_len(name@) > 255 ==> message_is(
                r,
                "Game name cannot exceed 255 characters"@,
            ),
    {
        if is_blank(name) {
            return Err(String::from_str("Game name cannot be empty"));
        }
        if byte_len(name) > 255 {
            return Err(String::from_str("Game name cannot exceed 255 characters"));
        }
        Ok(())
    }

    pub fn is_deleted(&self) -> (r: bool)
        ensures
            r == self.deleted_at is Some,
    {
        self.deleted_at.is_some()
    }

    /// Marks the game deleted now; it is then hidden from reads.
    pub fn soft_delete(&mut self)
        ensures
            final(self).deleted_at is Some,
            final(self).deleted_at == Some(final(self).updated_at),
            final(self).id == old(self).id,
            final(self).hex_id == old(self).hex_id,
            final(self).name == old(self).name,
            final(self).description == old(self).description,
            final(self).created_at == old(self).created_at,
    {
        let now = now_rfc3339();
        self.deleted_at = Some(now.clone());
        self.updated_at = now;
    }

    /// Clears the deletion mark, which makes the game visible again.
    pub fn restore(&mut self)
        ensures
            final(self).deleted_at is None,
            final(self).id == old(self).id,
            final(self).hex_id == old(self).hex_id,
            final(self).name == old(self).name,
            final(self).description == old(self).description,
            final(self).created_at == old(self).created_at,
    {
        self.deleted_at = None;
        self.updated_at = now_rfc3339();
    }

    /// Applies the given fields, keeps the others, and records the change
    /// time.
    pub fn update(&mut self, update_data: UpdateGame)
        ensures
            final(self).name == (match update_data.name {
                Some(n) => n,
                None => old(self).name,
            }),
            final(self).description == (match update_data.description {
                Some(d) => Some(d),
                None => old(self).description,
            }),
            final(self).id == old(self).id,
            final(self).hex_id == old(self).hex_id,
            final(self).created_at == old(self).created_at,
            final(self).deleted_at == old(self).deleted_at,
    {
        if let Some(name) = update_data.name {
            self.name = name;
        }
        if let Some(description) = update_data.description {
            self.description = Some(description);
        }
        self.updated_at = now_rfc3339();
    }
}

/// A score as the listing sees it.
#[derive(Debug, Clone)]
pub struct Score {
    pub id: i64,
    pub game_hex_id: String,
    /// The score as submitted, for display.
    pub score: String,
    /// Decimal text of the numeric value used for ordering, as the number
    /// prints in its shortest exact form (`1000.5`, `2000`).
    pub score_val_text: String,
    pub user_name: String,
    pub user_id: String,
    /// Free-form JSON payload, as text.
    pub extra: Option<String>,
    /// RFC 3339 text of the submission instant.
    pub submitted_at: String,
    /// RFC 3339 text of the soft deletion, if the score is deleted.
    pub deleted_at: Option<String>,
}

impl Score {
    pub fn is_deleted(&self) -> (r: bool)
        ensures
            r == self.deleted_at is Some,
    {
        self.deleted_at.is_some()
    }

    /// Marks the score deleted now; it is then hidden from reads.
    pub fn soft_delete(&mut self)
        ensures
            final(self).deleted_at is Some,
            *final(self) == (Score { deleted_at: final(self).deleted_at, ..*old(self) }),
    {
        self.deleted_at = Some(now_rfc3339());
    }

    /// Clears the deletion mark, which makes the score visible again.
    pub fn restore(&mut self)
        ensures
            *final(self) == (Score { deleted_at: None, ..*old(self) }),
    {
        self.deleted_at = None;
    }

    /// Checks that a user name is not blank and takes at most 100 bytes.
    pub fn validate_user_name(name: &str) -> (r: Result<(), String>)
        ensures
            r is Ok <==> !blank(name@) && utf8_len(name@) <= 100,
            blank(name@) ==> message_is(r, "User name cannot be empty"@),
            !blank(name@) && utf8_len(name@) > 100 ==> message_is(
                r,
                "User name cannot exceed 100 characters"@,
            ),
    {
        if is_blank(name) {
            return Err(String::from_str("User name cannot be empty"));
        }
        if byte_len(name) > 100 {
            return Err(String::from_str("User name cannot exceed 100 characters"));
        }
        Ok(())
    }

    /// Checks that a user id is not blank and takes at most 255 bytes.
    pub fn validate_user_id(id: &str) -> (r: Result<(), String>)
        ensures
            r is Ok <==> !blank(id@) && utf8_len(id@) <= 255,
            blank(id@) ==> message_is(r, "User ID cannot be empty"@),
            !blank(id@) && utf8_len(id@) > 255 ==> message_is(
                r,
                "User ID cannot exceed 255 characters"@,
            ),
    {
        if is_blank(id) {
            return Err(String::from_str("User ID cannot be empty"));
        }
        if byte_len(id) > 255 {
            return Err(String::from_str("User ID cannot exceed 255 characters"));
        }
        Ok(())
    }
}

/// Whether reads see a score: only while it carries no deletion mark.
pub open spec fn visible(s: Score) -> bool {
    s.deleted_at is None
}

/// Soft deletion hides a visible score from reads, and restoring it brings
/// back exactly the score that was hidden.
pub proof fn lemma_soft_delete_then_restore(s: Score, at: String)
    requires
        visible(s),
    ensures
        !visible(Score { deleted_at: Some(at), ..s }),
        visible(Score { deleted_at: None, ..Score { deleted_at: Some(at), ..s } }),
        (Score { deleted_at: None, ..Score { deleted_at: Some(at), ..s } }) == s,
{
}

} // verus!
