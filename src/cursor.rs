//! Cursor tokens: a cursor is written as a compact JSON record, and the
//! record's bytes are carried as URL-safe base64 without padding.

use base64::engine::general_purpose::URL_SAFE_NO_PAD;
use base64::Engine;
use vstd::prelude::*;
use vstd::string::*;
use vstd::utf8::*;

use crate::text::str_eq;

use crate::models::{Game, Score};
use crate::layout::{
    game_record, lemma_game_layout, lemma_score_layout, parse_game_record,
    parse_score_record, push_bytes, score_head, score_record,
};
use crate::record::{lemma_int_text_unique, write_escaped, write_int};

verus! {

broadcast use {
    vstd::utf8::encode_utf8_decode_utf8,
    vstd::utf8::encode_utf8_valid_utf8,
    vstd::utf8::decode_utf8_encode_utf8,
};

/// Position in the game listing: the last game seen, by creation time and
/// then hex id.
#[derive(Debug, Clone)]
pub struct GameCursor {
    pub hex_id: String,
    /// RFC 3339 text of the creation time.
    pub created_at: String,
}

/// Position in a score listing: the last score seen, by the value of the
/// active sort column and then id.
#[derive(Debug, Clone)]
pub struct ScoreCursor {
    pub id: i64,
    /// Text of the active sort column's value.
    pub sort_value: String,
}

/// URL-safe base64 text, without padding, of a byte sequence.
pub uninterp spec fn base64url_of(b: Seq<u8>) -> Seq<char>;

/// Relies on base64's `URL_SAFE_NO_PAD.encode`: the encoding of the bytes.
#[verifier::external_body]
fn base64url_encode(b: &[u8]) -> (r: String)
    ensures
        r@ == base64url_of(b@),
{
    URL_SAFE_NO_PAD.encode(b)
}

/// Relies on base64's `URL_SAFE_NO_PAD.decode`: with no padding accepted and
/// no stray trailing bits, it accepts exactly the texts that `encode`
/// writes, and returns the bytes they encode.
#[verifier::external_body]
fn base64url_decode(s: &str) -> (r: Option<Vec<u8>>)
    ensures
        r is Some <==> exists|b: Seq<u8>| base64url_of(b) == s@,
        r matches Some(v) ==> forall|b: Seq<u8>| base64url_of(b) == s@ <==> v@ == b,
{
    URL_SAFE_NO_PAD.decode(s).ok()
}

/// Relies on `String::from_utf8`: it succeeds exactly on valid UTF-8 and
/// then holds the characters that the bytes encode.
#[verifier::external_body]
fn string_from_utf8(b: Vec<u8>) -> (r: Option<String>)
    ensures
        r is Some <==> valid_utf8(b@),
        r matches Some(s) ==> s@ == decode_utf8(b@),
{
    String::from_utf8(b).ok()
}

/// Record bytes of the game cursor `(hex_id, created_at)`.
pub open spec fn game_cursor_bytes(hex_id: Seq<char>, created_at: Seq<char>) -> Seq<u8> {
    game_record(encode_utf8(hex_id), encode_utf8(created_at))
}

/// Record bytes of the score cursor `(id, sort_value)`.
pub open spec fn score_cursor_bytes(id: int, sort_value: Seq<char>) -> Seq<u8> {
    score_record(id, encode_utf8(sort_value))
}

/// Token of the game cursor `(hex_id, created_at)`.
pub open spec fn game_cursor_token(hex_id: Seq<char>, created_at: Seq<char>) -> Seq<char> {
    base64url_of(game_cursor_bytes(hex_id, created_at))
}

/// Token of the score cursor `(id, sort_value)`.
pub open spec fn score_cursor_token(id: int, sort_value: Seq<char>) -> Seq<char> {
    base64url_of(score_cursor_bytes(id, sort_value))
}

fn invalid_cursor() -> (r: String) {
    String::from_str("invalid cursor")
}

/// Writes a game cursor as a token.
pub fn encode_game_cursor(cursor: &GameCursor) -> (r: Result<String, String>)
    ensures
        r matches Ok(t) && t@ == game_cursor_token(cursor.hex_id@, cursor.created_at@),
{
    let mut out: Vec<u8> = Vec::new();
    push_bytes(&mut out, "{\"hex_id\":\"".as_bytes());
    write_escaped(&mut out, cursor.hex_id.as_str().as_bytes());
    out.push(34);
    out.push(44);
    push_bytes(&mut out, "\"created_at\":\"".as_bytes());
    write_escaped(&mut out, cursor.created_at.as_str().as_bytes());
    out.push(34);
    out.push(125);
    assert(out@ =~= game_cursor_bytes(cursor.hex_id@, cursor.created_at@));
    Ok(base64url_encode(out.as_slice()))
}

/// Reads a game cursor from a token. A token is accepted exactly when it
/// is the token of some game cursor, and then yields that cursor; any other
/// text yields one opaque error, whichever step rejected it.
pub fn decode_game_cursor(cursor: &str) -> (r: Result<GameCursor, String>)
    ensures
        r matches Ok(c) ==> cursor@ == game_cursor_token(c.hex_id@, c.created_at@),
        forall|h: Seq<char>, t: Seq<char>|
            #[trigger] game_cursor_token(h, t) == cursor@ ==> (r matches Ok(c) && c.hex_id@ == h
                && c.created_at@ == t),
{
    let bytes = match base64url_decode(cursor) {
        Some(b) => b,
        None => {
            return Err(invalid_cursor());
        },
    };
    proof {
        assert forall|h: Seq<char>, t: Seq<char>| #[trigger]
            game_cursor_token(h, t) == cursor@ implies bytes@ == game_cursor_bytes(h, t) by {}
    }
    let (hb, cb) = match parse_game_record(bytes.as_slice()) {
        Some(x) => x,
        None => {
            proof {
                assert forall|h: Seq<char>, t: Seq<char>| #[trigger]
                    game_cursor_token(h, t) == cursor@ implies false by {
                    assert(game_record(encode_utf8(h), encode_utf8(t)) == bytes@);
                }
            }
            return Err(invalid_cursor());
        },
    };
    let ghost hv = hb@;
    let ghost cv = cb@;
    let hex_id = match string_from_utf8(hb) {
        Some(s) => s,
        None => {
            proof {
                assert forall|h: Seq<char>, t: Seq<char>| #[trigger]
                    game_cursor_token(h, t) == cursor@ implies false by {
                    assert(game_record(encode_utf8(h), encode_utf8(t)) == bytes@);
                }
            }
            return Err(invalid_cursor());
        },
    };
    let created_at = match string_from_utf8(cb) {
        Some(s) => s,
        None => {
            proof {
                assert forall|h: Seq<char>, t: Seq<char>| #[trigger]
                    game_cursor_token(h, t) == cursor@ implies false by {
                    assert(game_record(encode_utf8(h), encode_utf8(t)) == bytes@);
                }
            }
            return Err(invalid_cursor());
        },
    };
    proof {
        assert(encode_utf8(hex_id@) == hv);
        assert(encode_utf8(created_at@) == cv);
        assert forall|h: Seq<char>, t: Seq<char>| #[trigger]
            game_cursor_token(h, t) == cursor@ implies hex_id@ == h && created_at@ == t by {
            assert(game_record(encode_utf8(h), encode_utf8(t)) == bytes@);
        }
    }
    Ok(GameCursor { hex_id, created_at })
}

/// Writes a score cursor as a token.
pub fn encode_score_cursor(cursor: &ScoreCursor) -> (r: Result<String, String>)
    ensures
        r matches Ok(t) && t@ == score_cursor_token(cursor.id as int, cursor.sort_value@),
{
    let mut out: Vec<u8> = Vec::new();
    push_bytes(&mut out, "{\"id\":".as_bytes());
    write_int(&mut out, cursor.id);
    out.push(44);
    push_bytes(&mut out, "\"sort_value\":\"".as_bytes());
    write_escaped(&mut out, cursor.sort_value.as_str().as_bytes());
    out.push(34);
    out.push(125);
    assert(out@ =~= score_cursor_bytes(cursor.id as int, cursor.sort_value@));
    Ok(base64url_encode(out.as_slice()))
}

/// Reads a score cursor from a token. A token is accepted exactly when it
/// is the token of some score cursor, and then yields that cursor; any
/// other text yields one opaque error.
pub fn decode_score_cursor(cursor: &str) -> (r: Result<ScoreCursor, String>)
    ensures
        r matches Ok(c) ==> cursor@ == score_cursor_token(c.id as int, c.sort_value@),
        forall|id: i64, v: Seq<char>|
            #[trigger] score_cursor_token(id as int, v) == cursor@ ==> (r matches Ok(c) && c.id
                == id && c.sort_value@ == v),
{
    let bytes = match base64url_decode(cursor) {
        Some(b) => b,
        None => {
            return Err(invalid_cursor());
        },
    };
    proof {
        assert forall|id: i64, v: Seq<char>| #[trigger]
            score_cursor_token(id as int, v) == cursor@ implies bytes@ == score_cursor_bytes(
            id as int,
            v,
        ) by {}
    }
    let (id, vb) = match parse_score_record(bytes.as_slice()) {
        Some(x) => x,
        None => {
            proof {
                assert forall|id: i64, v: Seq<char>| #[trigger]
                    score_cursor_token(id as int, v) == cursor@ implies false by {
                    assert(score_record(id as int, encode_utf8(v)) == bytes@);
                }
            }
            return Err(invalid_cursor());
        },
    };
    let ghost vv = vb@;
    let sort_value = match string_from_utf8(vb) {
        Some(s) => s,
        None => {
            proof {
                assert forall|id2: i64, v: Seq<char>| #[trigger]
                    score_cursor_token(id2 as int, v) == cursor@ implies false by {
                    assert(score_record(id2 as int, encode_utf8(v)) == bytes@);
                }
            }
            return Err(invalid_cursor());
        },
    };
    proof {
        assert(encode_utf8(sort_value@) == vv);
        assert forall|id2: i64, v: Seq<char>| #[trigger]
            score_cursor_token(id2 as int, v) == cursor@ implies id == id2 && sort_value@ == v by {
            assert(score_record(id2 as int, encode_utf8(v)) == bytes@);
        }
    }
    Ok(ScoreCursor { id, sort_value })
}

/// A game cursor's record determines the cursor: no two cursors are written
/// alike, so decoding the token that encoding wrote gives back the cursor.
pub proof fn lemma_game_cursor_round_trip(h1: Seq<char>, t1: Seq<char>, h2: Seq<char>, t2: Seq<char>)
    requires
        game_cursor_bytes(h1, t1) == game_cursor_bytes(h2, t2),
    ensures
        h1 == h2 && t1 == t2,
{
    lemma_game_layout(encode_utf8(h1), encode_utf8(t1));
    lemma_game_layout(encode_utf8(h2), encode_utf8(t2));
    assert(decode_utf8(encode_utf8(h1)) == h1);
    assert(decode_utf8(encode_utf8(h2)) == h2);
    assert(decode_utf8(encode_utf8(t1)) == t1);
    assert(decode_utf8(encode_utf8(t2)) == t2);
}

/// A score cursor's record determines the cursor: no two cursors are
/// written alike, so decoding the token that encoding wrote gives back the
/// cursor.
pub proof fn lemma_score_cursor_round_trip(id1: int, v1: Seq<char>, id2: int, v2: Seq<char>)
    requires
        score_cursor_bytes(id1, v1) == score_cursor_bytes(id2, v2),
    ensures
        id1 == id2 && v1 == v2,
{
    let b = score_cursor_bytes(id1, v1);
    lemma_score_layout(id1, encode_utf8(v1));
    lemma_score_layout(id2, encode_utf8(v2));
    lemma_int_text_unique(b, score_head().len() as int, id1, id2);
    assert(decode_utf8(encode_utf8(v1)) == v1);
    assert(decode_utf8(encode_utf8(v2)) == v2);
}

/// The sort value that a score cursor records for a sort column: the score
/// value's text for `score_val` and for any unknown column, the submission
/// time for `submitted_at`, the user name for `user_name`.
pub open spec fn sort_value_of(score: Score, sort_field: Seq<char>) -> Seq<char> {
    if sort_field == "submitted_at"@ {
        score.submitted_at@
    } else if sort_field == "user_name"@ {
        score.user_name@
    } else {
        score.score_val_text@
    }
}

impl GameCursor {
    /// The position of a game in the listing.
    pub fn from_game(game: &Game) -> (r: Self)
        ensures
            r.hex_id@ == game.hex_id@,
            r.created_at@ == game.created_at@,
    {
        Self { hex_id: game.hex_id.clone(), created_at: game.created_at.clone() }
    }
}

impl ScoreCursor {
    /// The position of a score in a listing sorted by `sort_field`.
    pub fn from_score(score: &Score, sort_field: &str) -> (r: Self)
        ensures
            r.id == score.id,
            r.sort_value@ == sort_value_of(*score, sort_field@),
    {
        proof {
            reveal_strlit("score_val");
            reveal_strlit("submitted_at");
            reveal_strlit("user_name");
            assert("score_val"@[1] != "submitted_at"@[1]);
            assert("score_val"@[0] != "user_name"@[0]);
        }
        let sort_value = if str_eq(sort_field, "score_val") {
            score.score_val_text.clone()
        } else if str_eq(sort_field, "submitted_at") {
            score.submitted_at.clone()
        } else if str_eq(sort_field, "user_name") {
            score.user_name.clone()
        } else {
            score.score_val_text.clone()
        };
        Self { id: score.id, sort_value }
    }
}

} // verus!
