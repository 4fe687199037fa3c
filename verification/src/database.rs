//! Database integration: a fluent SQL query builder, a soft-deletable base
//! entity and an in-memory key/value store.

use vstd::prelude::*;

use crate::clock::utc_now_nanos;
use crate::error::{Result, SdkError};
use crate::string_map::StringMap;
use crate::text::{append, decimal, joined, push_decimal, push_joined, texts};
use crate::utils::{random_uuid, uuid_string, uuid_text};

verus! {

/// Query builder for constructing SQL queries
pub struct QueryBuilder {
    select: Vec<String>,
    from: Option<String>,
    where_clauses: Vec<String>,
    order_by: Vec<String>,
    limit_value: Option<u32>,
    offset_value: Option<u32>,
}

/// The characters of each string slice.
pub open spec fn str_texts(v: Seq<&str>) -> Seq<Seq<char>> {
    v.map_values(|s: &str| s@)
}

/// `" LIMIT n"` or `" OFFSET n"` when a value is given, else nothing.
pub open spec fn clause_for(keyword: Seq<char>, value: Option<u32>) -> Seq<char> {
    match value {
        Some(n) => keyword + decimal(n as nat),
        None => Seq::empty(),
    }
}

/// `keyword` followed by the joined parts, or nothing when there are no parts.
pub open spec fn list_clause(keyword: Seq<char>, parts: Seq<Seq<char>>, sep: Seq<char>) -> Seq<
    char,
> {
    if parts.len() == 0 {
        Seq::empty()
    } else {
        keyword + joined(parts, sep)
    }
}

impl QueryBuilder {
    /// The selected columns.
    pub closed spec fn columns(&self) -> Seq<Seq<char>> {
        texts(self.select@)
    }

    /// The table, once given.
    pub closed spec fn table(&self) -> Option<Seq<char>> {
        match self.from {
            Some(t) => Some(t@),
            None => None,
        }
    }

    /// The conditions, in the order they were added.
    pub closed spec fn conditions(&self) -> Seq<Seq<char>> {
        texts(self.where_clauses@)
    }

    /// The ordering terms (`column direction`), in the order they were added.
    pub closed spec fn orderings(&self) -> Seq<Seq<char>> {
        texts(self.order_by@)
    }

    /// The row limit, if any.
    pub closed spec fn row_limit(&self) -> Option<u32> {
        self.limit_value
    }

    /// The row offset, if any.
    pub closed spec fn row_offset(&self) -> Option<u32> {
        self.offset_value
    }

    /// The SQL text of the query once a table is given.
    pub open spec fn sql(&self, table: Seq<char>) -> Seq<char> {
        "SELECT "@ + joined(self.columns(), ", "@) + " FROM "@ + table + list_clause(
            " WHERE "@,
            self.conditions(),
            " AND "@,
        ) + list_clause(" ORDER BY "@, self.orderings(), ", "@) + clause_for(
            " LIMIT "@,
            self.row_limit(),
        ) + clause_for(" OFFSET "@, self.row_offset())
    }

    /// Create new query builder: every column, no table, no condition,
    /// ordering, limit or offset.
    pub fn new() -> (q: Self)
        ensures
            q.columns() == seq!["*"@],
            q.table() is None,
            q.conditions().len() == 0,
            q.orderings().len() == 0,
            q.row_limit() is None,
            q.row_offset() is None,
    {
        let mut select = Vec::new();
        select.push("*".to_owned());
        let q = Self {
            select,
            from: None,
            where_clauses: Vec::new(),
            order_by: Vec::new(),
            limit_value: None,
            offset_value: None,
        };
        assert(q.columns() =~= seq!["*"@]);
        q
    }

    /// Select columns
    pub fn select(self, columns: Vec<&str>) -> (q: Self)
        ensures
            q.columns() == str_texts(columns@),
            q.table() == self.table(),
            q.conditions() == self.conditions(),
            q.orderings() == self.orderings(),
            q.row_limit() == self.row_limit(),
            q.row_offset() == self.row_offset(),
    {
        let mut select: Vec<String> = Vec::new();
        let mut i: usize = 0;
        while i < columns.len()
            invariant
                i <= columns@.len(),
                select@.len() == i,
                forall|k: int| 0 <= k < i ==> #[trigger] select@[k]@ == columns@[k]@,
            decreases columns@.len() - i,
        {
            let col: &str = columns[i];
            select.push(col.to_owned());
            i = i + 1;
        }
        assert(texts(select@) =~= str_texts(columns@));
        Self { select, ..self }
    }

    /// From table
    pub fn from(self, table: &str) -> (q: Self)
        ensures
            q.table() == Some(table@),
            q.columns() == self.columns(),
            q.conditions() == self.conditions(),
            q.orderings() == self.orderings(),
            q.row_limit() == self.row_limit(),
            q.row_offset() == self.row_offset(),
    {
        Self { from: Some(table.to_owned()), ..self }
    }

    /// Add where clause
    pub fn where_clause(self, clause: &str) -> (q: Self)
        ensures
            q.conditions() == self.conditions().push(clause@),
            q.columns() == self.columns(),
            q.table() == self.table(),
            q.orderings() == self.orderings(),
            q.row_limit() == self.row_limit(),
            q.row_offset() == self.row_offset(),
    {
        let mut where_clauses = self.where_clauses;
        let ghost before = where_clauses@;
        where_clauses.push(clause.to_owned());
        let q = Self { where_clauses, ..self };
        assert(q.conditions() =~= texts(before).push(clause@));
        q
    }

    /// Order by `column direction`
    pub fn order_by(self, column: &str, direction: &str) -> (q: Self)
        ensures
            q.orderings() == self.orderings().push(column@ + " "@ + direction@),
            q.columns() == self.columns(),
            q.table() == self.table(),
            q.conditions() == self.conditions(),
            q.row_limit() == self.row_limit(),
            q.row_offset() == self.row_offset(),
    {
        let mut term = column.to_owned();
        append(&mut term, " ");
        append(&mut term, direction);
        let mut order_by = self.order_by;
        let ghost before = order_by@;
        order_by.push(term);
        let q = Self { order_by, ..self };
        assert(q.orderings() =~= texts(before).push(column@ + " "@ + direction@));
        q
    }

    /// Limit
    pub fn limit(self, limit: u32) -> (q: Self)
        ensures
            q.row_limit() == Some(limit),
            q.columns() == self.columns(),
            q.table() == self.table(),
            q.conditions() == self.conditions(),
            q.orderings() == self.orderings(),
            q.row_offset() == self.row_offset(),
    {
        Self { limit_value: Some(limit), ..self }
    }

    /// Offset
    pub fn offset(self, offset: u32) -> (q: Self)
        ensures
            q.row_offset() == Some(offset),
            q.columns() == self.columns(),
            q.table() == self.table(),
            q.conditions() == self.conditions(),
            q.orderings() == self.orderings(),
            q.row_limit() == self.row_limit(),
    {
        Self { offset_value: Some(offset), ..self }
    }

    /// Build query: fails exactly when no table was given.
    pub fn build(&self) -> (r: Result<String>)
        ensures
            match self.table() {
                Some(t) => r matches Ok(s) && s@ == self.sql(t),
                None => r matches Err(SdkError::DatabaseError(m)) && m@
                    == "Table name not specified"@,
            },
    {
        let table = match &self.from {
            Some(t) => t,
            None => {
                return Err(SdkError::DatabaseError("Table name not specified".to_owned()));
            },
        };
        let mut query = String::new();
        append(&mut query, "SELECT ");
        push_joined(&mut query, &self.select, ", ");
        append(&mut query, " FROM ");
        append(&mut query, table.as_str());
        let ghost head = query@;
        if self.where_clauses.len() > 0 {
            append(&mut query, " WHERE ");
            push_joined(&mut query, &self.where_clauses, " AND ");
        }
        assert(query@ =~= head + list_clause(" WHERE "@, self.conditions(), " AND "@));
        let ghost head = query@;
        if self.order_by.len() > 0 {
            append(&mut query, " ORDER BY ");
            push_joined(&mut query, &self.order_by, ", ");
        }
        assert(query@ =~= head + list_clause(" ORDER BY "@, self.orderings(), ", "@));
        let ghost head = query@;
        if let Some(limit) = self.limit_value {
            append(&mut query, " LIMIT ");
            push_decimal(&mut query, limit as u64);
        }
        assert(query@ =~= head + clause_for(" LIMIT "@, self.row_limit()));
        let ghost head = query@;
        if let Some(offset) = self.offset_value {
            append(&mut query, " OFFSET ");
            push_decimal(&mut query, offset as u64);
        }
        assert(query@ =~= head + clause_for(" OFFSET "@, self.row_offset()));
        Ok(query)
    }
}

impl Default for QueryBuilder {
    fn default() -> (q: Self)
        ensures
            q.columns() == seq!["*"@],
            q.table() is None,
            q.conditions().len() == 0,
            q.orderings().len() == 0,
            q.row_limit() is None,
            q.row_offset() is None,
    {
        Self::new()
    }
}

// ---------------------------------------------------------------------
// Entities
// ---------------------------------------------------------------------

/// Base entity: an identifier (a UUID as a 128-bit number) and timestamps in
/// nanoseconds since the Unix epoch (UTC); deleting only marks the time.
#[derive(Debug, Clone)]
pub struct BaseEntity {
    pub id: u128,
    pub created_at: i128,
    pub updated_at: i128,
    pub deleted_at: Option<i128>,
}

impl BaseEntity {
    /// Create new base entity: a random version-4 identifier, created and
    /// updated now, not deleted.
    pub fn new() -> (e: Self)
        ensures
            (e.id >> 76u128) & 0xf == 4,
            e.id != 0,
            e.created_at == e.updated_at,
            e.deleted_at is None,
    {
        let id = random_uuid();
        assert(((id >> 76u128) & 0xf == 4) ==> id != 0) by (bit_vector);
        let now = utc_now_nanos();
        Self { id, created_at: now, updated_at: now, deleted_at: None }
    }

    /// Mark as deleted (soft delete), now.
    pub fn soft_delete(&mut self)
        ensures
            final(self).deleted_at is Some,
            final(self).id == old(self).id,
            final(self).created_at == old(self).created_at,
            final(self).updated_at == old(self).updated_at,
    {
        self.deleted_at = Some(utc_now_nanos());
    }

    /// Check if deleted
    pub fn is_deleted(&self) -> (b: bool)
        ensures
            b == self.deleted_at is Some,
    {
        self.deleted_at.is_some()
    }
}

impl Default for BaseEntity {
    fn default() -> (e: Self)
        ensures
            e.id != 0,
            e.created_at == e.updated_at,
            e.deleted_at is None,
    {
        Self::new()
    }
}

// ---------------------------------------------------------------------
// In-memory store
// ---------------------------------------------------------------------

/// In-memory database for testing: records (bytes) by key.
pub struct InMemoryDatabase {
    data: StringMap<Vec<u8>>,
}

/// The bytes of an optional record.
pub open spec fn record_of(r: Option<Vec<u8>>) -> Option<Seq<u8>> {
    match r {
        Some(v) => Some(v@),
        None => None,
    }
}

impl InMemoryDatabase {
    /// The records by key.
    pub closed spec fn records(&self) -> Map<Seq<char>, Seq<u8>> {
        self.data@.map_values(|v: Vec<u8>| v@)
    }

    /// Create new in-memory database
    pub fn new() -> (db: Self)
        ensures
            db.records() == Map::<Seq<char>, Seq<u8>>::empty(),
    {
        let db = Self { data: StringMap::new() };
        assert(db.records() =~= Map::<Seq<char>, Seq<u8>>::empty());
        db
    }

    /// Insert record
    pub fn insert(&mut self, key: String, value: Vec<u8>)
        ensures
            final(self).records() == old(self).records().insert(key@, value@),
    {
        let ghost k = key@;
        let ghost v = value@;
        self.data.insert(key, value);
        assert(self.records() =~= old(self).records().insert(k, v));
    }

    /// Get record
    pub fn get(&self, key: &str) -> (r: Option<Vec<u8>>)
        ensures
            record_of(r) == (if self.records().contains_key(key@) {
                Some(self.records()[key@])
            } else {
                None
            }),
    {
        match self.data.get(key) {
            Some(v) => {
                let c = v.clone();
                assert(c@ =~= v@);
                Some(c)
            },
            None => None,
        }
    }

    /// Delete record, returning it.
    pub fn delete(&mut self, key: &str) -> (r: Option<Vec<u8>>)
        ensures
            final(self).records() == old(self).records().remove(key@),
            record_of(r) == (if old(self).records().contains_key(key@) {
                Some(old(self).records()[key@])
            } else {
                None
            }),
    {
        let r = self.data.remove(key);
        assert(self.records() =~= old(self).records().remove(key@));
        r
    }
}

impl Default for InMemoryDatabase {
    fn default() -> (db: Self)
        ensures
            db.records() == Map::<Seq<char>, Seq<u8>>::empty(),
    {
        Self::new()
    }
}

/// What a read gives back after a write: the record last inserted under a
/// key, until it is deleted.
pub proof fn read_after_insert(
    records: Map<Seq<char>, Seq<u8>>,
    key: Seq<char>,
    value: Seq<u8>,
    other: Seq<char>,
)
    requires
        other != key,
    ensures
        records.insert(key, value).contains_key(key),
        records.insert(key, value)[key] == value,
        !records.insert(key, value).remove(key).contains_key(key),
        records.insert(key, value).contains_key(other) == records.contains_key(other),
        records.contains_key(other) ==> records.insert(key, value)[other] == records[other],
{
}

// ---------------------------------------------------------------------
// User records
// ---------------------------------------------------------------------

/// User data transfer object; the identifier is a UUID as a 128-bit number,
/// the creation time in nanoseconds since the Unix epoch (UTC).
#[derive(Debug, Clone)]
pub struct UserDto {
    pub id: Option<u128>,
    pub username: String,
    pub email: String,
    pub created_at: Option<i128>,
}

/// The SQL statements of the user repository.
pub struct UserQueries;

impl UserQueries {
    /// `INSERT INTO users (id, username, email) VALUES ('<id>', '<username>', '<email>')`
    pub fn insert(id: u128, user: &UserDto) -> (q: String)
        ensures
            q@ == "INSERT INTO users (id, username, email) VALUES ('"@ + uuid_text(id) + "', '"@
                + user.username@ + "', '"@ + user.email@ + "')"@,
    {
        let mut q = "INSERT INTO users (id, username, email) VALUES ('".to_owned();
        let idt = uuid_string(id);
        append(&mut q, idt.as_str());
        append(&mut q, "', '");
        append(&mut q, user.username.as_str());
        append(&mut q, "', '");
        append(&mut q, user.email.as_str());
        append(&mut q, "')");
        q
    }

    /// A new user's identifier, a random version-4 UUID, and the statement
    /// that inserts the user under it.
    pub fn insert_new(user: &UserDto) -> (r: (u128, String))
        ensures
            (r.0 >> 76u128) & 0xf == 4,
            r.1@ == "INSERT INTO users (id, username, email) VALUES ('"@ + uuid_text(r.0) + "', '"@
                + user.username@ + "', '"@ + user.email@ + "')"@,
    {
        let id = random_uuid();
        (id, Self::insert(id, user))
    }

    /// `SELECT * FROM users WHERE id = '<id>'`
    pub fn select_by_id(id: u128) -> (q: String)
        ensures
            q@ == "SELECT * FROM users WHERE id = '"@ + uuid_text(id) + "'"@,
    {
        let mut q = "SELECT * FROM users WHERE id = '".to_owned();
        let idt = uuid_string(id);
        append(&mut q, idt.as_str());
        append(&mut q, "'");
        q
    }

    /// `SELECT * FROM users`
    pub fn select_all() -> (q: String)
        ensures
            q@ == "SELECT * FROM users"@,
    {
        "SELECT * FROM users".to_owned()
    }

    /// `UPDATE users SET username = '<username>', email = '<email>' WHERE id = '<id>'`
    pub fn update(id: u128, user: &UserDto) -> (q: String)
        ensures
            q@ == "UPDATE users SET username = '"@ + user.username@ + "', email = '"@ + user.email@
                + "' WHERE id = '"@ + uuid_text(id) + "'"@,
    {
        let mut q = "UPDATE users SET username = '".to_owned();
        append(&mut q, user.username.as_str());
        append(&mut q, "', email = '");
        append(&mut q, user.email.as_str());
        append(&mut q, "' WHERE id = '");
        let idt = uuid_string(id);
        append(&mut q, idt.as_str());
        append(&mut q, "'");
        q
    }

    /// `DELETE FROM users WHERE id = '<id>'`
    pub fn delete(id: u128) -> (q: String)
        ensures
            q@ == "DELETE FROM users WHERE id = '"@ + uuid_text(id) + "'"@,
    {
        let mut q = "DELETE FROM users WHERE id = '".to_owned();
        let idt = uuid_string(id);
        append(&mut q, idt.as_str());
        append(&mut q, "'");
        q
    }
}

} // verus!
