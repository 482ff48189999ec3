//! Repository steps around the store: what each operation checks and which
//! query it issues before the store is reached, and what it makes of the
//! store's answer afterwards. Running the queries is left to the caller.

use vstd::prelude::*;
use vstd::string::*;

use crate::cursor::{
    decode_game_cursor, decode_score_cursor, encode_game_cursor, encode_score_cursor,
    game_cursor_token, score_cursor_token, sort_value_of, GameCursor, ScoreCursor,
};
use crate::error::ApiError;
use crate::keyset::keyset_clause_of;
use crate::models::{hex_id_valid, CreateGame, Game, Score, UpdateGame};
use crate::pagination::{
    column_of, effective_field, order_clause_of, probe_has_more, resolved_limit, retained_rows,
    PaginatedResponse, PaginationParams, ScoreSortParams,
};
use crate::text::{blank, utf8_len};

verus! {

/// Game operations.
pub struct GameRepository;

/// Score operations.
pub struct ScoreRepository;

/// Instant of an RFC 3339 text, as Unix seconds and nanoseconds.
pub uninterp spec fn rfc3339_instant(s: Seq<char>) -> Option<(int, int)>;

/// Relies on chrono's `DateTime::parse_from_rfc3339`: whether the text is an
/// RFC 3339 date and time, and then its instant (`timestamp`,
/// `timestamp_subsec_nanos`).
#[verifier::external_body]
fn parse_rfc3339(s: &str) -> (r: Option<(i64, u32)>)
    ensures
        r is Some <==> rfc3339_instant(s@) is Some,
        r matches Some((secs, nanos)) ==> rfc3339_instant(s@) == Some(
            (secs as int, nanos as int),
        ),
{
    chrono::DateTime::parse_from_rfc3339(s).ok().map(|d| (d.timestamp(), d.timestamp_subsec_nanos()))
}

/// Where a game listing resumes: after the game created at this instant
/// with this hex id.
#[derive(Debug, Clone)]
pub struct GameAfter {
    pub created_secs: i64,
    pub created_nanos: u32,
    pub hex_id: String,
}

/// The query of one page of games. Its parameters are, in order: the
/// resume position when there is one (creation instant, then hex id), then
/// `fetch_limit`.
#[derive(Debug, Clone)]
pub struct GameListQuery {
    pub sql: String,
    pub after: Option<GameAfter>,
    pub limit: u32,
    pub fetch_limit: i64,
}

/// The query of one page of a game's scores. Its parameters are, in order:
/// `game_hex_id`, the cursor's sort value and id when there is a cursor,
/// then `fetch_limit`.
#[derive(Debug, Clone)]
pub struct ScoreListQuery {
    pub sql: String,
    pub game_hex_id: String,
    pub after: Option<ScoreCursor>,
    pub limit: u32,
    pub fetch_limit: i64,
}

/// Text of the game listing query, from the start or after a position.
pub open spec fn game_list_sql(resumed: bool) -> Seq<char> {
    if resumed {
        "SELECT id, hex_id, name, description, created_at, updated_at, deleted_at FROM game WHERE deleted_at IS NULL AND (created_at, hex_id) < (?1, ?2) ORDER BY created_at DESC, hex_id DESC LIMIT ?3"@
    } else {
        "SELECT id, hex_id, name, description, created_at, updated_at, deleted_at FROM game WHERE deleted_at IS NULL ORDER BY created_at DESC, hex_id DESC LIMIT ?1"@
    }
}

/// Column list of score queries.
pub open spec fn score_select() -> Seq<char> {
    "SELECT id, game_hex_id, score, score_val, user_name, user_id, extra, submitted_at, deleted_at FROM score WHERE deleted_at IS NULL AND game_hex_id = ?1"@
}

/// Text of a score listing query, from the start or after a cursor.
pub open spec fn score_list_sql(p: ScoreSortParams, resumed: bool) -> Seq<char> {
    if resumed {
        score_select() + " AND ("@ + keyset_clause_of(p) + ") ORDER BY "@ + order_clause_of(p)
            + ", id LIMIT ?4"@
    } else {
        score_select() + " ORDER BY "@ + order_clause_of(p) + ", id LIMIT ?2"@
    }
}

fn invalid_cursor_error() -> (r: ApiError)
    ensures
        r matches ApiError::ValidationError(_),
{
    ApiError::ValidationError(String::from_str("Invalid cursor"))
}

/// The answer to a lookup: the row when one was found, else `NotFound`.
pub fn require_found<T>(row: Option<T>) -> (r: Result<T, ApiError>)
    ensures
        match row {
            Some(t) => r == Ok::<T, ApiError>(t),
            None => r matches Err(ApiError::NotFound),
        },
{
    match row {
        Some(t) => Ok(t),
        None => Err(ApiError::NotFound),
    }
}

/// The answer to a soft delete from the number of rows it changed: none
/// changed means the row was absent or already deleted.
pub fn require_affected(rows_affected: u64) -> (r: Result<(), ApiError>)
    ensures
        rows_affected == 0 ==> r matches Err(ApiError::NotFound),
        rows_affected > 0 ==> r is Ok,
{
    if rows_affected == 0 {
        Err(ApiError::NotFound)
    } else {
        Ok(())
    }
}

impl GameRepository {
    /// Checks a hex id given in a request.
    pub fn check_hex_id(hex_id: &str) -> (r: Result<(), ApiError>)
        ensures
            r is Ok <==> hex_id_valid(hex_id@),
            r is Err ==> r matches Err(ApiError::InvalidParameter(_)),
    {
        match Game::validate_hex_id(hex_id) {
            Ok(()) => Ok(()),
            Err(m) => Err(ApiError::InvalidParameter(m)),
        }
    }

    /// Checks the fields of a game to create.
    pub fn validate_create(create_data: &CreateGame) -> (r: Result<(), ApiError>)
        ensures
            r is Ok <==> !blank(create_data.name@) && utf8_len(create_data.name@) <= 255,
            r is Err ==> r matches Err(ApiError::ValidationError(_)),
    {
        match Game::validate_name(create_data.name.as_str()) {
            Ok(()) => Ok(()),
            Err(m) => Err(ApiError::from(m)),
        }
    }

    /// Checks an update: first the hex id, then the new name if one is given.
    pub fn validate_update(hex_id: &str, update_data: &UpdateGame) -> (r: Result<(), ApiError>)
        ensures
            !hex_id_valid(hex_id@) ==> r matches Err(ApiError::InvalidParameter(_)),
            hex_id_valid(hex_id@) ==> match update_data.name {
                Some(n) => (r is Ok <==> !blank(n@) && utf8_len(n@) <= 255) && (r is Err
                    ==> r matches Err(ApiError::ValidationError(_))),
                None => r is Ok,
            },
    {
        Self::check_hex_id(hex_id)?;
        match &update_data.name {
            Some(n) => match Game::validate_name(n.as_str()) {
                Ok(()) => Ok(()),
                Err(m) => Err(ApiError::from(m)),
            },
            None => Ok(()),
        }
    }

    /// Plans one page of the game listing, newest first. Without a cursor
    /// the listing starts at the newest game; with one, the cursor must be
    /// a game cursor token whose creation time is RFC 3339 text, and the
    /// listing resumes after that game. Any other cursor is rejected before
    /// a query is issued.
    pub fn plan_list(pagination: &PaginationParams) -> (r: Result<GameListQuery, ApiError>)
        ensures
            r matches Ok(q) ==> q.limit == resolved_limit(pagination.limit) && q.fetch_limit
                == q.limit + 1 && q.sql@ == game_list_sql(q.after is Some),
            pagination.cursor is None ==> (r matches Ok(q) && q.after is None),
            pagination.cursor matches Some(t) ==> (r matches Ok(q) ==> (q.after matches Some(a)
                && exists|c: Seq<char>|
                t@ == game_cursor_token(a.hex_id@, c) && rfc3339_instant(c) == Some(
                    (a.created_secs as int, a.created_nanos as int),
                ))),
            pagination.cursor matches Some(t) ==> forall|h: Seq<char>, c: Seq<char>|
                #[trigger] game_cursor_token(h, c) == t@ ==> match rfc3339_instant(c) {
                    Some((secs, nanos)) => r matches Ok(q) && q.after matches Some(a)
                        && a.hex_id@ == h && a.created_secs as int == secs && a.created_nanos as int
                        == nanos,
                    None => r matches Err(ApiError::ValidationError(_)),
                },
            pagination.cursor matches Some(t) ==> ((forall|h: Seq<char>, c: Seq<char>|
                #[trigger] game_cursor_token(h, c) != t@) ==> r matches Err(
                ApiError::ValidationError(_),
            )),
    {
        let limit = pagination.get_limit();
        let fetch_limit = (limit as i64) + 1;
        match &pagination.cursor {
            None => Ok(GameListQuery {
                sql: String::from_str("SELECT id, hex_id, name, description, created_at, updated_at, deleted_at FROM game WHERE deleted_at IS NULL ORDER BY created_at DESC, hex_id DESC LIMIT ?1"),
                after: None,
                limit,
                fetch_limit,
            }),
            Some(token) => {
                let cursor = match decode_game_cursor(token.as_str()) {
                    Ok(c) => c,
                    Err(_) => {
                        return Err(invalid_cursor_error());
                    },
                };
                let (secs, nanos) = match parse_rfc3339(cursor.created_at.as_str()) {
                    Some(x) => x,
                    None => {
                        return Err(ApiError::ValidationError(String::from_str("Invalid cursor date")));
                    },
                };
                Ok(GameListQuery {
                    sql: String::from_str("SELECT id, hex_id, name, description, created_at, updated_at, deleted_at FROM game WHERE deleted_at IS NULL AND (created_at, hex_id) < (?1, ?2) ORDER BY created_at DESC, hex_id DESC LIMIT ?3"),
                    after: Some(GameAfter { created_secs: secs, created_nanos: nanos, hex_id: cursor.hex_id }),
                    limit,
                    fetch_limit,
                })
            },
        }
    }

    /// Assembles a page of games from the rows that the planned query
    /// returned; the next cursor points at the last game kept.
    pub fn page_from_rows(games: Vec<Game>, limit: u32, current_cursor: Option<String>) -> (r:
        PaginatedResponse<Game>)
        ensures
            r.has_more == probe_has_more(games@.len(), limit as nat),
            r.data@ == retained_rows(games@, limit as nat),
            r.has_more && r.data@.len() > 0 ==> (r.next_cursor matches Some(t) && t@
                == game_cursor_token(r.data@.last().hex_id@, r.data@.last().created_at@)),
            !(r.has_more && r.data@.len() > 0) ==> r.next_cursor is None,
            r.current_cursor == current_cursor,
            r.total_returned == r.data@.len(),
            r.page_size == limit,
    {
        PaginatedResponse::from_query_results(
            games,
            limit,
            current_cursor,
            (|g: &Game| -> (o: Option<String>)
                ensures
                    o matches Some(t) && t@ == game_cursor_token(g.hex_id@, g.created_at@),
                {
                    match encode_game_cursor(&GameCursor::from_game(g)) {
                        Ok(t) => Some(t),
                        Err(_) => None,
                    }
                }),
        )
    }
}

fn score_list_sql_text(sort_params: &ScoreSortParams, resumed: bool) -> (r: String)
    ensures
        r@ == score_list_sql(*sort_params, resumed),
{
    let mut s = String::from_str(
        "SELECT id, game_hex_id, score, score_val, user_name, user_id, extra, submitted_at, deleted_at FROM score WHERE deleted_at IS NULL AND game_hex_id = ?1",
    );
    if resumed {
        s.append(" AND (");
        let k = sort_params.to_sql_keyset_clause();
        s.append(k.as_str());
        s.append(") ORDER BY ");
    } else {
        s.append(" ORDER BY ");
    }
    let o = sort_params.to_sql_order_clause();
    s.append(o.as_str());
    if resumed {
        s.append(", id LIMIT ?4");
    } else {
        s.append(", id LIMIT ?2");
    }
    s
}

impl ScoreRepository {
    /// Checks the user fields of a score to submit.
    pub fn validate_submission(user_name: &str, user_id: &str) -> (r: Result<(), ApiError>)
        ensures
            r is Ok <==> (!blank(user_name@) && utf8_len(user_name@) <= 100 && !blank(user_id@)
                && utf8_len(user_id@) <= 255),
            r is Err ==> r matches Err(ApiError::ValidationError(_)),
    {
        match Score::validate_user_name(user_name) {
            Ok(()) => {},
            Err(m) => {
                return Err(ApiError::from(m));
            },
        }
        match Score::validate_user_id(user_id) {
            Ok(()) => Ok(()),
            Err(m) => Err(ApiError::from(m)),
        }
    }

    /// Checks the user fields that an update changes; absent ones pass.
    pub fn validate_changes(user_name: &Option<String>, user_id: &Option<String>) -> (r: Result<
        (),
        ApiError,
    >)
        ensures
            r is Ok <==> (match user_name {
                Some(n) => !blank(n@) && utf8_len(n@) <= 100,
                None => true,
            }) && (match user_id {
                Some(i) => !blank(i@) && utf8_len(i@) <= 255,
                None => true,
            }),
            r is Err ==> r matches Err(ApiError::ValidationError(_)),
    {
        if let Some(n) = user_name {
            match Score::validate_user_name(n.as_str()) {
                Ok(()) => {},
                Err(m) => {
                    return Err(ApiError::from(m));
                },
            }
        }
        if let Some(i) = user_id {
            match Score::validate_user_id(i.as_str()) {
                Ok(()) => {},
                Err(m) => {
                    return Err(ApiError::from(m));
                },
            }
        }
        Ok(())
    }

    /// Plans one page of a game's scores in the requested order, ties
    /// broken by ascending id. The game's hex id must be well formed. With
    /// a cursor, the cursor must be a score cursor token, and the listing
    /// resumes after the row it names; any other cursor is rejected before
    /// a query is issued.
    pub fn plan_list_by_game(
        game_hex_id: &str,
        pagination: &PaginationParams,
        sort_params: &ScoreSortParams,
    ) -> (r: Result<ScoreListQuery, ApiError>)
        ensures
            !hex_id_valid(game_hex_id@) ==> r matches Err(ApiError::ValidationError(_)),
            r matches Ok(q) ==> q.game_hex_id@ == game_hex_id@ && q.limit == resolved_limit(
                pagination.limit,
            ) && q.fetch_limit == q.limit + 1 && q.sql@ == score_list_sql(
                *sort_params,
                q.after is Some,
            ) && (q.after is Some) == (pagination.cursor is Some),
            hex_id_valid(game_hex_id@) && pagination.cursor is None ==> r is Ok,
            pagination.cursor matches Some(t) ==> (r matches Ok(q) ==> (q.after matches Some(c)
                && t@ == score_cursor_token(c.id as int, c.sort_value@))),
            pagination.cursor matches Some(t) ==> hex_id_valid(game_hex_id@) ==> forall|
                id: i64,
                v: Seq<char>,
            |
                #[trigger] score_cursor_token(id as int, v) == t@ ==> (r matches Ok(q)
                    && q.after matches Some(c) && c.id == id && c.sort_value@ == v),
            pagination.cursor matches Some(t) ==> ((forall|id: i64, v: Seq<char>|
                #[trigger] score_cursor_token(id as int, v) != t@) ==> r is Err),
    {
        match Game::validate_hex_id(game_hex_id) {
            Ok(()) => {},
            Err(m) => {
                return Err(ApiError::from(m));
            },
        }
        let limit = pagination.get_limit();
        let fetch_limit = (limit as i64) + 1;
        let after = match &pagination.cursor {
            None => None,
            Some(token) => match decode_score_cursor(token.as_str()) {
                Ok(c) => Some(c),
                Err(_) => {
                    return Err(invalid_cursor_error());
                },
            },
        };
        let sql = score_list_sql_text(sort_params, after.is_some());
        Ok(ScoreListQuery {
            sql,
            game_hex_id: String::from_str(game_hex_id),
            after,
            limit,
            fetch_limit,
        })
    }

    /// Assembles a page of scores from the rows that the planned query
    /// returned; the next cursor records the last kept score's id and its
    /// value in the active sort column.
    pub fn page_from_rows(
        scores: Vec<Score>,
        limit: u32,
        current_cursor: Option<String>,
        sort_params: &ScoreSortParams,
    ) -> (r: PaginatedResponse<Score>)
        ensures
            r.has_more == probe_has_more(scores@.len(), limit as nat),
            r.data@ == retained_rows(scores@, limit as nat),
            r.has_more && r.data@.len() > 0 ==> (r.next_cursor matches Some(t) && t@
                == score_cursor_token(
                r.data@.last().id as int,
                sort_value_of(r.data@.last(), column_of(effective_field(*sort_params))),
            )),
            !(r.has_more && r.data@.len() > 0) ==> r.next_cursor is None,
            r.current_cursor == current_cursor,
            r.total_returned == r.data@.len(),
            r.page_size == limit,
    {
        let field = sort_params.get_cursor_field();
        PaginatedResponse::from_query_results(
            scores,
            limit,
            current_cursor,
            (|s: &Score| -> (o: Option<String>)
                ensures
                    o matches Some(t) && t@ == score_cursor_token(
                        s.id as int,
                        sort_value_of(*s, field@),
                    ),
                {
                    match encode_score_cursor(&ScoreCursor::from_score(s, field)) {
                        Ok(t) => Some(t),
                        Err(_) => None,
                    }
                }),
        )
    }
}

} // verus!
