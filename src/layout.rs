//! Layout of cursor records: `{"hex_id":"..","created_at":".."}` for games
//! and `{"id":..,"sort_value":".."}` for scores, written and read back.

use vstd::prelude::*;
use vstd::string::*;

use crate::record::{
    escaped, int_text, int_text_at, lemma_read_escaped, lemma_read_string_sound, read_int,
    read_string, read_string_at,
};

verus! {

/// `{"hex_id":"`
pub open spec fn game_head() -> Seq<u8> {
    "{\"hex_id\":\"".spec_bytes()
}

/// `"created_at":"`
pub open spec fn game_mid() -> Seq<u8> {
    "\"created_at\":\"".spec_bytes()
}

/// `{"id":`
pub open spec fn score_head() -> Seq<u8> {
    "{\"id\":".spec_bytes()
}

/// `"sort_value":"`
pub open spec fn score_mid() -> Seq<u8> {
    "\"sort_value\":\"".spec_bytes()
}

/// Record of a game cursor whose two members hold the bytes `h` and `c`:
/// `{"hex_id":"<h>","created_at":"<c>"}`.
pub open spec fn game_record(h: Seq<u8>, c: Seq<u8>) -> Seq<u8> {
    game_head() + escaped(h) + seq![34u8, 44u8] + game_mid() + escaped(c) + seq![34u8, 125u8]
}

/// Record of a score cursor: `{"id":<id>,"sort_value":"<v>"}`.
pub open spec fn score_record(id: int, v: Seq<u8>) -> Seq<u8> {
    score_head() + int_text(id) + seq![44u8] + score_mid() + escaped(v) + seq![34u8, 125u8]
}

pub fn push_bytes(out: &mut Vec<u8>, s: &[u8])
    ensures
        final(out)@ == old(out)@ + s@,
{
    let mut i: usize = 0;
    while i < s.len()
        invariant
            0 <= i <= s@.len(),
            out@ == old(out)@ + s@.take(i as int),
        decreases s@.len() - i,
    {
        out.push(s[i]);
        assert(s@.take(i + 1) =~= s@.take(i as int).push(s@[i as int]));
        i = i + 1;
    }
    assert(s@.take(s@.len() as int) =~= s@);
}

/// Whether `lit` stands in `b` at `at`.
fn bytes_at(b: &[u8], at: usize, lit: &[u8]) -> (r: bool)
    ensures
        r == (at + lit@.len() <= b@.len() && b@.subrange(at as int, at + lit@.len()) == lit@),
{
    if at > b.len() || b.len() - at < lit.len() {
        return false;
    }
    let mut k: usize = 0;
    while k < lit.len()
        invariant
            at + lit@.len() <= b@.len(),
            b@.len() == b.len(),
            0 <= k <= lit@.len(),
            forall|j: int| 0 <= j < k ==> b@[at + j] == lit@[j],
        decreases lit@.len() - k,
    {
        if b[at + k] != lit[k] {
            assert(b@.subrange(at as int, at + lit@.len())[k as int] == b@[at + k]);
            return false;
        }
        k = k + 1;
    }
    assert(b@.subrange(at as int, at + lit@.len()) =~= lit@);
    true
}

pub proof fn lemma_game_layout(h: Seq<u8>, c: Seq<u8>)
    ensures
        ({
            let b = game_record(h, c);
            let p = game_head().len() as int;
            let e1 = p + escaped(h).len() + 1;
            let s2 = e1 + 1 + game_mid().len();
            let e2 = s2 + escaped(c).len() + 1;
            &&& p <= b.len()
            &&& b.subrange(0, p) == game_head()
            &&& read_string(b, p) == Some((h, e1))
            &&& e1 < b.len() && b[e1] == 44
            &&& s2 <= b.len() && b.subrange(e1 + 1, s2) == game_mid()
            &&& read_string(b, s2) == Some((c, e2))
            &&& e2 + 1 == b.len() && b[e2] == 125
        }),
{
    let b = game_record(h, c);
    let p = game_head().len() as int;
    let e1 = p + escaped(h).len() + 1;
    let s2 = e1 + 1 + game_mid().len();
    let e2 = s2 + escaped(c).len() + 1;
    assert(b.subrange(0, p) =~= game_head());
    assert(b.subrange(p, e1) =~= escaped(h) + seq![34u8]);
    lemma_read_escaped(h, b, p);
    assert(b[e1] == 44);
    assert(b.subrange(e1 + 1, s2) =~= game_mid());
    assert(b.subrange(s2, e2) =~= escaped(c) + seq![34u8]);
    lemma_read_escaped(c, b, s2);
    assert(b[e2] == 125);
}

pub proof fn lemma_score_layout(id: int, v: Seq<u8>)
    ensures
        ({
            let b = score_record(id, v);
            let p = score_head().len() as int;
            let e1 = p + int_text(id).len();
            let s2 = e1 + 1 + score_mid().len();
            let e2 = s2 + escaped(v).len() + 1;
            &&& p <= b.len()
            &&& b.subrange(0, p) == score_head()
            &&& int_text_at(b, p, id)
            &&& e1 < b.len() && b[e1] == 44
            &&& s2 <= b.len() && b.subrange(e1 + 1, s2) == score_mid()
            &&& read_string(b, s2) == Some((v, e2))
            &&& e2 + 1 == b.len() && b[e2] == 125
        }),
{
    let b = score_record(id, v);
    let p = score_head().len() as int;
    let e1 = p + int_text(id).len();
    let s2 = e1 + 1 + score_mid().len();
    let e2 = s2 + escaped(v).len() + 1;
    assert(b.subrange(0, p) =~= score_head());
    assert(b.subrange(p, e1) =~= int_text(id));
    assert(b[e1] == 44);
    assert(b.subrange(e1 + 1, s2) =~= score_mid());
    assert(b.subrange(s2, e2) =~= escaped(v) + seq![34u8]);
    lemma_read_escaped(v, b, s2);
    assert(b[e2] == 125);
}

/// Reads a game cursor record back into the bytes of its two members.
/// Exactly the texts that `game_record` writes are accepted.
#[verifier::rlimit(60)]
pub fn parse_game_record(b: &[u8]) -> (r: Option<(Vec<u8>, Vec<u8>)>)
    ensures
        r matches Some((h, c)) ==> b@ == game_record(h@, c@),
        forall|h: Seq<u8>, c: Seq<u8>|
            #[trigger] game_record(h, c) == b@ ==> (r matches Some((x, y)) && x@ == h && y@
                == c),
{
    let head = "{\"hex_id\":\"".as_bytes();
    let mid = "\"created_at\":\"".as_bytes();
    if !bytes_at(b, 0, head) {
        proof {
            assert forall|h: Seq<u8>, c: Seq<u8>| #[trigger] game_record(h, c) == b@ implies false by {
                lemma_game_layout(h, c);
            }
        }
        return None;
    }
    let p = head.len();
    let first = read_string_at(b, p);
    let (h, e1) = match first {
        Some(x) => x,
        None => {
            proof {
                assert forall|h: Seq<u8>, c: Seq<u8>| #[trigger] game_record(h, c) == b@ implies false by {
                    lemma_game_layout(h, c);
                }
            }
            return None;
        },
    };
    proof {
        lemma_read_string_sound(b@, p as int);
    }
    if e1 >= b.len() || b[e1] != 44 || !bytes_at(b, e1 + 1, mid) {
        proof {
            assert forall|h: Seq<u8>, c: Seq<u8>| #[trigger] game_record(h, c) == b@ implies false by {
                lemma_game_layout(h, c);
            }
        }
        return None;
    }
    let s2 = e1 + 1 + mid.len();
    let second = read_string_at(b, s2);
    let (c, e2) = match second {
        Some(x) => x,
        None => {
            proof {
                assert forall|h: Seq<u8>, c: Seq<u8>| #[trigger] game_record(h, c) == b@ implies false by {
                    lemma_game_layout(h, c);
                }
            }
            return None;
        },
    };
    proof {
        lemma_read_string_sound(b@, s2 as int);
    }
    if e2 >= b.len() || b[e2] != 125 || e2 + 1 != b.len() {
        proof {
            assert forall|h: Seq<u8>, c: Seq<u8>| #[trigger] game_record(h, c) == b@ implies false by {
                lemma_game_layout(h, c);
            }
        }
        return None;
    }
    proof {
        assert(b@ =~= b@.subrange(0, p as int) + b@.subrange(p as int, e1 as int) + seq![44u8]
            + b@.subrange(e1 + 1, s2 as int) + b@.subrange(s2 as int, e2 as int) + seq![125u8]);
        assert(b@ =~= game_record(h@, c@));
        assert forall|h2: Seq<u8>, c2: Seq<u8>| #[trigger] game_record(h2, c2) == b@ implies h@
            == h2 && c@ == c2 by {
            lemma_game_layout(h2, c2);
        }
    }
    Some((h, c))
}

/// Reads a score cursor record back into its id and the bytes of its sort
/// value. Exactly the texts that `score_record` writes are accepted.
pub fn parse_score_record(b: &[u8]) -> (r: Option<(i64, Vec<u8>)>)
    ensures
        r matches Some((id, v)) ==> b@ == score_record(id as int, v@),
        forall|id: i64, v: Seq<u8>|
            #[trigger] score_record(id as int, v) == b@ ==> (r matches Some((x, y)) && x == id
                && y@ == v),
{
    let head = "{\"id\":".as_bytes();
    let mid = "\"sort_value\":\"".as_bytes();
    if !bytes_at(b, 0, head) {
        proof {
            assert forall|id: i64, v: Seq<u8>| #[trigger] score_record(id as int, v) == b@ implies false by {
                lemma_score_layout(id as int, v);
            }
        }
        return None;
    }
    let p = head.len();
    let (id, e1) = match read_int(b, p) {
        Some(x) => x,
        None => {
            proof {
                assert forall|id: i64, v: Seq<u8>| #[trigger] score_record(id as int, v) == b@ implies false by {
                    lemma_score_layout(id as int, v);
                }
            }
            return None;
        },
    };
    if e1 >= b.len() || b[e1] != 44 || !bytes_at(b, e1 + 1, mid) {
        proof {
            assert forall|id: i64, v: Seq<u8>| #[trigger] score_record(id as int, v) == b@ implies false by {
                lemma_score_layout(id as int, v);
            }
        }
        return None;
    }
    let s2 = e1 + 1 + mid.len();
    let (v, e2) = match read_string_at(b, s2) {
        Some(x) => x,
        None => {
            proof {
                assert forall|id: i64, v: Seq<u8>| #[trigger] score_record(id as int, v) == b@ implies false by {
                    lemma_score_layout(id as int, v);
                }
            }
            return None;
        },
    };
    proof {
        lemma_read_string_sound(b@, s2 as int);
    }
    if e2 >= b.len() || b[e2] != 125 || e2 + 1 != b.len() {
        proof {
            assert forall|id: i64, v: Seq<u8>| #[trigger] score_record(id as int, v) == b@ implies false by {
                lemma_score_layout(id as int, v);
            }
        }
        return None;
    }
    proof {
        assert(b@ =~= b@.subrange(0, p as int) + b@.subrange(p as int, e1 as int) + seq![44u8]
            + b@.subrange(e1 + 1, s2 as int) + b@.subrange(s2 as int, e2 as int) + seq![125u8]);
        assert(b@ =~= score_record(id as int, v@));
        assert forall|id2: i64, v2: Seq<u8>| #[trigger] score_record(id2 as int, v2) == b@ implies id
            == id2 && v@ == v2 by {
            lemma_score_layout(id2 as int, v2);
        }
    }
    Some((id, v))
}

} // verus!
