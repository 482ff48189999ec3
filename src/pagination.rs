//! Page-size clamping, sort resolution and page assembly.

use vstd::prelude::*;

use crate::text::{concat3, str_eq};

verus! {

/// Page size used when a request names none.
pub const DEFAULT_PAGE_SIZE: u32 = 25;

/// Largest page a request may ask for.
pub const MAX_PAGE_SIZE: u32 = 100;

/// Requested pagination: an opaque cursor and a page size, both optional.
#[derive(Debug, Clone)]
pub struct PaginationParams {
    pub cursor: Option<String>,
    pub limit: Option<u32>,
}

/// The page size that a requested limit resolves to.
pub open spec fn resolved_limit(limit: Option<u32>) -> u32 {
    match limit {
        Some(l) => if 0 < l && l <= MAX_PAGE_SIZE { l } else { MAX_PAGE_SIZE },
        None => DEFAULT_PAGE_SIZE,
    }
}

/// Value of a text read as an unsigned 32-bit decimal number.
pub uninterp spec fn u32_parse(s: Seq<char>) -> Option<u32>;

/// Relies on `str::parse::<u32>`: the number a text denotes, if any; the
/// result depends on the characters alone.
#[verifier::external_body]
fn parse_u32(s: &str) -> (r: Option<u32>)
    ensures
        r == u32_parse(s@),
{
    s.parse::<u32>().ok()
}

/// The page size that a configured value resolves to: a parsed value
/// clamped to `1..=MAX_PAGE_SIZE`, and `DEFAULT_PAGE_SIZE` when there is no
/// parsed value.
pub open spec fn configured_page_size(parsed: Option<u32>) -> u32 {
    match parsed {
        Some(v) => if v < 1 { 1 } else if v > MAX_PAGE_SIZE { MAX_PAGE_SIZE } else { v },
        None => DEFAULT_PAGE_SIZE,
    }
}

impl PaginationParams {
    pub fn new(cursor: Option<String>, limit: Option<u32>) -> (r: Self)
        ensures
            r.cursor == cursor,
            r.limit == limit,
    {
        Self { cursor, limit }
    }

    /// The default page size from an already parsed setting.
    pub fn page_size_from_parsed(parsed: Option<u32>) -> (r: u32)
        ensures
            r == configured_page_size(parsed),
    {
        match parsed {
            Some(v) => {
                if v < 1 {
                    1
                } else if v > MAX_PAGE_SIZE {
                    MAX_PAGE_SIZE
                } else {
                    v
                }
            },
            None => DEFAULT_PAGE_SIZE,
        }
    }

    /// The default page size from the text of a setting, if one is set. A
    /// text that is not a number falls back to `DEFAULT_PAGE_SIZE`.
    pub fn page_size_from_setting(raw: Option<&str>) -> (r: u32)
        ensures
            r == configured_page_size(
                match raw {
                    Some(s) => u32_parse(s@),
                    None => None,
                },
            ),
            1 <= r <= MAX_PAGE_SIZE,
    {
        let parsed = match raw {
            Some(s) => parse_u32(s),
            None => None,
        };
        Self::page_size_from_parsed(parsed)
    }

    /// The effective page size: the requested limit when it lies in
    /// `1..=MAX_PAGE_SIZE`, `MAX_PAGE_SIZE` for any other requested value,
    /// and `DEFAULT_PAGE_SIZE` when none was requested.
    pub fn get_limit(&self) -> (r: u32)
        ensures
            r == resolved_limit(self.limit),
            1 <= r <= MAX_PAGE_SIZE,
    {
        match self.limit {
            Some(limit) => {
                if limit > 0 && limit <= MAX_PAGE_SIZE {
                    limit
                } else {
                    MAX_PAGE_SIZE
                }
            },
            None => DEFAULT_PAGE_SIZE,
        }
    }
}

/// Direction of the primary sort.
#[derive(Debug, Clone, Copy, PartialEq, Eq, Structural)]
pub enum SortOrder {
    Ascending,
    Descending,
}

impl Default for SortOrder {
    fn default() -> (r: Self)
        ensures
            r == SortOrder::Descending,
    {
        SortOrder::Descending
    }
}

/// Logical sort keys that a score listing accepts.
#[derive(Debug, Clone, Copy, PartialEq, Eq, Structural)]
pub enum ScoreSortField {
    Score,
    Date,
    UserName,
}

impl Default for ScoreSortField {
    fn default() -> (r: Self)
        ensures
            r == ScoreSortField::Score,
    {
        ScoreSortField::Score
    }
}

/// Physical column that a logical sort key maps to.
pub open spec fn column_of(f: ScoreSortField) -> Seq<char> {
    match f {
        ScoreSortField::Score => "score_val"@,
        ScoreSortField::Date => "submitted_at"@,
        ScoreSortField::UserName => "user_name"@,
    }
}

/// SQL keyword for a sort direction.
pub open spec fn direction_keyword(o: SortOrder) -> Seq<char> {
    match o {
        SortOrder::Ascending => "ASC"@,
        SortOrder::Descending => "DESC"@,
    }
}

/// Comparison that selects the rows after a cursor in the primary order.
pub open spec fn comparison_of(o: SortOrder) -> Seq<char> {
    match o {
        SortOrder::Ascending => ">"@,
        SortOrder::Descending => "<"@,
    }
}

impl ScoreSortField {
    /// The column this key sorts by.
    pub fn column(&self) -> (r: &'static str)
        ensures
            r@ == column_of(*self),
    {
        match self {
            ScoreSortField::Score => "score_val",
            ScoreSortField::Date => "submitted_at",
            ScoreSortField::UserName => "user_name",
        }
    }

    /// Resolves a logical key as written in a request (`score`, `date`,
    /// `user_name`); any other text is not a sort key.
    pub fn from_key(key: &str) -> (r: Option<ScoreSortField>)
        ensures
            r == (if key@ == "score"@ {
                Some(ScoreSortField::Score)
            } else if key@ == "date"@ {
                Some(ScoreSortField::Date)
            } else if key@ == "user_name"@ {
                Some(ScoreSortField::UserName)
            } else {
                None::<ScoreSortField>
            }),
    {
        if str_eq(key, "score") {
            Some(ScoreSortField::Score)
        } else if str_eq(key, "date") {
            Some(ScoreSortField::Date)
        } else if str_eq(key, "user_name") {
            Some(ScoreSortField::UserName)
        } else {
            None
        }
    }
}

impl SortOrder {
    /// The SQL keyword of this direction.
    pub fn keyword(&self) -> (r: &'static str)
        ensures
            r@ == direction_keyword(*self),
    {
        match self {
            SortOrder::Ascending => "ASC",
            SortOrder::Descending => "DESC",
        }
    }

    /// The comparison that keeps rows strictly after a cursor value.
    pub fn comparison(&self) -> (r: &'static str)
        ensures
            r@ == comparison_of(*self),
    {
        match self {
            SortOrder::Ascending => ">",
            SortOrder::Descending => "<",
        }
    }

    /// Resolves a direction as written in a request (`asc`, `desc`).
    pub fn from_key(key: &str) -> (r: Option<SortOrder>)
        ensures
            r == (if key@ == "asc"@ {
                Some(SortOrder::Ascending)
            } else if key@ == "desc"@ {
                Some(SortOrder::Descending)
            } else {
                None::<SortOrder>
            }),
    {
        if str_eq(key, "asc") {
            Some(SortOrder::Ascending)
        } else if str_eq(key, "desc") {
            Some(SortOrder::Descending)
        } else {
            None
        }
    }
}

/// Requested sort of a score listing; absent parts take their defaults.
#[derive(Debug, Clone)]
pub struct ScoreSortParams {
    pub sort_by: Option<ScoreSortField>,
    pub order: Option<SortOrder>,
}

/// The sort key in effect: the requested one, else `Score`.
pub open spec fn effective_field(p: ScoreSortParams) -> ScoreSortField {
    match p.sort_by {
        Some(f) => f,
        None => ScoreSortField::Score,
    }
}

/// The direction in effect: the requested one, else `Descending`.
pub open spec fn effective_order(p: ScoreSortParams) -> SortOrder {
    match p.order {
        Some(o) => o,
        None => SortOrder::Descending,
    }
}

/// `ORDER BY` fragment of the primary sort, e.g. `score_val DESC`.
pub open spec fn order_clause_of(p: ScoreSortParams) -> Seq<char> {
    column_of(effective_field(p)) + " "@ + direction_keyword(effective_order(p))
}

impl ScoreSortParams {
    pub fn new(sort_by: Option<ScoreSortField>, order: Option<SortOrder>) -> (r: Self)
        ensures
            r.sort_by == sort_by,
            r.order == order,
    {
        Self { sort_by, order }
    }

    pub fn get_sort_field(&self) -> (r: ScoreSortField)
        ensures
            r == effective_field(*self),
    {
        match self.sort_by {
            Some(f) => f,
            None => ScoreSortField::default(),
        }
    }

    pub fn get_sort_order(&self) -> (r: SortOrder)
        ensures
            r == effective_order(*self),
    {
        match self.order {
            Some(o) => o,
            None => SortOrder::default(),
        }
    }

    /// The primary `ORDER BY` fragment, column then direction.
    pub fn to_sql_order_clause(&self) -> (r: String)
        ensures
            r@ == order_clause_of(*self),
    {
        let field = self.get_sort_field().column();
        let order = self.get_sort_order().keyword();
        concat3(field, " ", order)
    }

    /// The column whose value a score cursor records.
    pub fn get_cursor_field(&self) -> (r: &'static str)
        ensures
            r@ == column_of(effective_field(*self)),
    {
        self.get_sort_field().column()
    }
}

/// Query-string parameters of a score listing.
#[derive(Debug, Clone)]
pub struct ScoreQueryParams {
    pub game_hex_id: Option<String>,
    pub cursor: Option<String>,
    pub limit: Option<u32>,
    pub sort_by: Option<ScoreSortField>,
    pub order: Option<SortOrder>,
}

impl ScoreQueryParams {
    /// The pagination part of the query.
    pub fn to_pagination_params(&self) -> (r: PaginationParams)
        ensures
            r.cursor == self.cursor,
            r.limit == self.limit,
    {
        PaginationParams { cursor: self.cursor.clone(), limit: self.limit }
    }

    /// The sort part of the query.
    pub fn to_sort_params(&self) -> (r: ScoreSortParams)
        ensures
            r.sort_by == self.sort_by,
            r.order == self.order,
    {
        ScoreSortParams { sort_by: self.sort_by, order: self.order }
    }
}

/// One page of a listing together with its continuation metadata.
#[derive(Debug, Clone)]
pub struct PaginatedResponse<T> {
    pub data: Vec<T>,
    pub has_more: bool,
    pub next_cursor: Option<String>,
    pub current_cursor: Option<String>,
    pub total_returned: usize,
    pub page_size: u32,
}

/// Continuation metadata of a page, without its rows.
#[derive(Debug, Clone)]
pub struct PaginationInfo {
    pub has_more: bool,
    pub next_cursor: Option<String>,
    pub current_cursor: Option<String>,
    pub total_returned: usize,
    pub page_size: u32,
}

/// Whether `fetched` rows, read with a probe row beyond a page of `limit`,
/// show that more rows follow.
pub open spec fn probe_has_more(fetched: nat, limit: nat) -> bool {
    fetched > limit
}

/// The rows kept for the page: everything fetched, less the probe row
/// when it came back.
pub open spec fn retained_rows<T>(fetched: Seq<T>, limit: nat) -> Seq<T> {
    if probe_has_more(fetched.len(), limit) {
        fetched.drop_last()
    } else {
        fetched
    }
}

impl<T> PaginatedResponse<T> {
    pub fn new(
        data: Vec<T>,
        has_more: bool,
        next_cursor: Option<String>,
        current_cursor: Option<String>,
        page_size: u32,
    ) -> (r: Self)
        ensures
            r.data@ == data@,
            r.has_more == has_more,
            r.next_cursor == next_cursor,
            r.current_cursor == current_cursor,
            r.total_returned == data@.len(),
            r.page_size == page_size,
    {
        let total_returned = data.len();
        Self { data, has_more, next_cursor, current_cursor, total_returned, page_size }
    }

    /// Assembles a page from rows fetched with a limit of
    /// `requested_limit + 1`. When the probe row came back it is dropped,
    /// `has_more` is set, and the next cursor is built by `next_cursor_fn`
    /// from the last retained row; otherwise there is no next cursor. The
    /// request's cursor is echoed back unchanged.
    pub fn from_query_results(
        data: Vec<T>,
        requested_limit: u32,
        current_cursor: Option<String>,
        next_cursor_fn: impl FnOnce(&T) -> Option<String>,
    ) -> (r: Self)
        requires
            forall|t: &T| next_cursor_fn.requires((t,)),
        ensures
            r.has_more == probe_has_more(data@.len(), requested_limit as nat),
            r.data@ == retained_rows(data@, requested_limit as nat),
            r.has_more && r.data@.len() > 0 ==> next_cursor_fn.ensures(
                (&r.data@.last(),),
                r.next_cursor,
            ),
            !(r.has_more && r.data@.len() > 0) ==> r.next_cursor is None,
            r.current_cursor == current_cursor,
            r.total_returned == r.data@.len(),
            r.page_size == requested_limit,
    {
        let mut data = data;
        let has_more = data.len() > requested_limit as usize;
        if has_more {
            data.pop();
        }
        let next_cursor = if has_more && data.len() > 0 {
            let last = &data[data.len() - 1];
            next_cursor_fn(last)
        } else {
            None
        };
        Self::new(data, has_more, next_cursor, current_cursor, requested_limit)
    }

    /// The page's continuation metadata.
    pub fn get_pagination_info(&self) -> (r: PaginationInfo)
        ensures
            r.has_more == self.has_more,
            r.next_cursor == self.next_cursor,
            r.current_cursor == self.current_cursor,
            r.total_returned == self.total_returned,
            r.page_size == self.page_size,
    {
        PaginationInfo {
            has_more: self.has_more,
            next_cursor: self.next_cursor.clone(),
            current_cursor: self.current_cursor.clone(),
            total_returned: self.total_returned,
            page_size: self.page_size,
        }
    }
}

/// What the store returns for a fetch of `limit + 1` rows when `matching`
/// rows match, in order.
pub open spec fn probe_fetch<T>(matching: Seq<T>, limit: nat) -> Seq<T> {
    if matching.len() <= limit + 1 {
        matching
    } else {
        matching.take((limit + 1) as int)
    }
}

/// Against exactly `limit` matching rows a page keeps them all and reports
/// no more rows; against `limit + 1` it reports more, keeps the first
/// `limit`, and its last kept row, from which the next cursor is built, is
/// row `limit`.
pub proof fn lemma_has_more_exact<T>(matching: Seq<T>, limit: nat)
    requires
        limit >= 1,
    ensures
        matching.len() == limit ==> !probe_has_more(probe_fetch(matching, limit).len(), limit)
            && retained_rows(probe_fetch(matching, limit), limit) == matching,
        matching.len() == limit + 1 ==> probe_has_more(probe_fetch(matching, limit).len(), limit)
            && retained_rows(probe_fetch(matching, limit), limit) == matching.take(limit as int)
            && retained_rows(probe_fetch(matching, limit), limit).last() == matching[limit - 1],
{
    if matching.len() == limit + 1 {
        assert(matching.drop_last() =~= matching.take(limit as int));
    }
}

} // verus!
