//! The checkpoint of a projection in a table of a relational database: how
//! far the projection has consumed the event log.
//!
//! A save is a compare-and-swap on the saved position. The statements are
//! made here; running them is the caller's part.

use vstd::prelude::*;
use vstd::string::*;

verus! {

/// The table that holds checkpoints, unless another is named.
pub open spec fn default_table() -> Seq<char> {
    "checkpoints"@
}

/// The column that holds the position, unless another is named.
pub open spec fn default_position_col() -> Seq<char> {
    "position"@
}

/// The column that holds the projection's identifier, unless another is named.
pub open spec fn default_projection_id_col() -> Seq<char> {
    "projection_id"@
}

/// Where the checkpoint of one projection is kept.
#[derive(Clone, Debug)]
pub struct CheckpointTable {
    /// The projection whose checkpoint this is.
    pub projection_id: String,
    /// The name of the table.
    pub table: String,
    /// The name of the column that holds the position.
    pub position_col: String,
    /// The name of the column that holds the projection's identifier.
    pub projection_id_col: String,
}

/// The statement that reads a checkpoint.
pub open spec fn select_text(table: Seq<char>, position_col: Seq<char>, id_col: Seq<char>) -> Seq<
    char,
> {
    "SELECT "@ + position_col + " FROM "@ + table + " WHERE "@ + id_col + " = $1"@
}

/// The statement that writes the first checkpoint of a projection.
pub open spec fn insert_text(table: Seq<char>, position_col: Seq<char>, id_col: Seq<char>) -> Seq<
    char,
> {
    "INSERT INTO "@ + table + " ("@ + id_col + ", "@ + position_col + ") VALUES ($1, $2)"@
}

/// The statement that moves a checkpoint on from the position it is expected
/// to hold.
pub open spec fn update_text(table: Seq<char>, position_col: Seq<char>, id_col: Seq<char>) -> Seq<
    char,
> {
    "UPDATE "@ + table + " SET "@ + position_col + " = $1 WHERE "@ + id_col + " = $2 AND "@
        + position_col + " = $3"@
}

/// A statement that saves a checkpoint, with its parameters in order.
#[derive(Clone, Debug)]
pub enum SaveStatement {
    /// Insert the row: there must be none yet.
    Insert { sql: String, projection_id: String, position: i64 },
    /// Update the row, if it holds the expected position.
    Update { sql: String, position: i64, projection_id: String, expected: i64 },
}

/// Why a save did not take effect.
#[derive(Clone, Copy, Debug, PartialEq, Eq, Structural)]
pub enum CheckpointError {
    /// No row held the expected position: another runner moved the
    /// checkpoint.
    RowNotFound,
}

/// The largest position that the position column can hold.
pub const MAX_POSITION: u64 = 0x7fff_ffff_ffff_ffff;

impl CheckpointTable {
    /// The checkpoint of the given projection, in the default table and
    /// columns.
    pub fn new(projection_id: String) -> (r: Self)
        ensures
            r.projection_id@ == projection_id@,
            r.table@ == default_table(),
            r.position_col@ == default_position_col(),
            r.projection_id_col@ == default_projection_id_col(),
    {
        CheckpointTable {
            projection_id,
            table: String::from_str("checkpoints"),
            position_col: String::from_str("position"),
            projection_id_col: String::from_str("projection_id"),
        }
    }

    /// The same checkpoint in another table.
    pub fn table(self, table: String) -> (r: Self)
        ensures
            r.table@ == table@,
            r.projection_id@ == self.projection_id@,
            r.position_col@ == self.position_col@,
            r.projection_id_col@ == self.projection_id_col@,
    {
        CheckpointTable {
            projection_id: self.projection_id,
            table,
            position_col: self.position_col,
            projection_id_col: self.projection_id_col,
        }
    }

    /// The same checkpoint with its position in another column.
    pub fn position_col(self, position_col: String) -> (r: Self)
        ensures
            r.position_col@ == position_col@,
            r.projection_id@ == self.projection_id@,
            r.table@ == self.table@,
            r.projection_id_col@ == self.projection_id_col@,
    {
        CheckpointTable {
            projection_id: self.projection_id,
            table: self.table,
            position_col,
            projection_id_col: self.projection_id_col,
        }
    }

    /// The same checkpoint with the projection's identifier in another column.
    pub fn projection_id_col(self, projection_id_col: String) -> (r: Self)
        ensures
            r.projection_id_col@ == projection_id_col@,
            r.projection_id@ == self.projection_id@,
            r.table@ == self.table@,
            r.position_col@ == self.position_col@,
    {
        CheckpointTable {
            projection_id: self.projection_id,
            table: self.table,
            position_col: self.position_col,
            projection_id_col,
        }
    }

    /// The statement that reads the checkpoint; its one parameter is the
    /// projection's identifier.
    pub fn load_sql(&self) -> (sql: String)
        ensures
            sql@ == select_text(self.table@, self.position_col@, self.projection_id_col@),
    {
        let mut sql = String::from_str("SELECT ");
        sql.append(self.position_col.as_str());
        sql.append(" FROM ");
        sql.append(self.table.as_str());
        sql.append(" WHERE ");
        sql.append(self.projection_id_col.as_str());
        sql.append(" = $1");
        sql
    }

    /// The position that a row holds, as a position of the event log.
    pub fn loaded(row: Option<i64>) -> (r: Option<u64>)
        requires
            row.is_some() ==> row.unwrap() >= 0,
        ensures
            r == match row {
                Some(p) => Some(p as u64),
                None => None,
            },
    {
        match row {
            Some(p) => Some(p as u64),
            None => None,
        }
    }

    /// The statement that saves `position`: an insert if no position is
    /// expected to be saved yet, and else an update that takes effect only
    /// where the row holds the expected position.
    pub fn save(&self, expected_position: Option<u64>, position: u64) -> (r: SaveStatement)
        requires
            position <= MAX_POSITION,
            expected_position.is_some() ==> expected_position.unwrap() <= MAX_POSITION,
        ensures
            match expected_position {
                None => r is Insert && r->Insert_sql@ == insert_text(
                    self.table@,
                    self.position_col@,
                    self.projection_id_col@,
                ) && r->Insert_projection_id@ == self.projection_id@ && r->Insert_position
                    == position,
                Some(e) => r is Update && r->Update_sql@ == update_text(
                    self.table@,
                    self.position_col@,
                    self.projection_id_col@,
                ) && r->Update_projection_id@ == self.projection_id@ && r->Update_position
                    == position && r->Update_expected == e,
            },
    {
        match expected_position {
            None => {
                let mut sql = String::from_str("INSERT INTO ");
                sql.append(self.table.as_str());
                sql.append(" (");
                sql.append(self.projection_id_col.as_str());
                sql.append(", ");
                sql.append(self.position_col.as_str());
                sql.append(") VALUES ($1, $2)");
                SaveStatement::Insert {
                    sql,
                    projection_id: self.projection_id.clone(),
                    position: position as i64,
                }
            },
            Some(expected) => {
                let mut sql = String::from_str("UPDATE ");
                sql.append(self.table.as_str());
                sql.append(" SET ");
                sql.append(self.position_col.as_str());
                sql.append(" = $1 WHERE ");
                sql.append(self.projection_id_col.as_str());
                sql.append(" = $2 AND ");
                sql.append(self.position_col.as_str());
                sql.append(" = $3");
                SaveStatement::Update {
                    sql,
                    position: position as i64,
                    projection_id: self.projection_id.clone(),
                    expected: expected as i64,
                }
            },
        }
    }

    /// Whether a save took effect, from the number of rows that its statement
    /// touched: an update that touched none found the checkpoint moved.
    pub fn saved(expected_position: Option<u64>, rows_affected: u64) -> (r: Result<
        (),
        CheckpointError,
    >)
        ensures
            r is Err <==> expected_position.is_some() && rows_affected == 0,
    {
        match expected_position {
            None => Ok(()),
            Some(_) => if rows_affected == 0 {
                Err(CheckpointError::RowNotFound)
            } else {
                Ok(())
            },
        }
    }
}

} // verus!
