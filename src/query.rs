//! Small pieces of query building: the keyword that joins filters, and
//! bounded integer parameters.

use vstd::prelude::*;
use vstd::string::*;

verus! {

/// The keyword before the next condition of a query: the first is joined
/// with `WHERE`, every later one with `AND`.
#[derive(Clone, Copy, Debug, PartialEq, Eq, Structural, Hash)]
pub enum Filter {
    Where,
    And,
}

impl Filter {
    pub fn new() -> (r: Filter)
        ensures
            r == Filter::Where,
    {
        Filter::Where
    }

    /// Makes every later condition join with `AND`.
    pub fn switch(&mut self)
        ensures
            *final(self) == Filter::And,
    {
        *self = Filter::And;
    }

    /// The keyword, with a space on each side.
    pub fn as_str(&self) -> (r: &'static str)
        ensures
            r@ == match self {
                Filter::Where => " WHERE "@,
                Filter::And => " AND "@,
            },
    {
        match self {
            Filter::Where => " WHERE ",
            Filter::And => " AND ",
        }
    }
}

impl Default for Filter {
    fn default() -> (r: Filter)
        ensures
            r == Filter::Where,
    {
        Filter::Where
    }
}

/// An integer parameter that was checked against its bounds.
#[derive(Clone, Copy, Debug, PartialEq, Eq, Structural, PartialOrd, Ord, Hash)]
pub struct BoundedU64 {
    pub value: u64,
}

/// A value outside the allowed range.
#[derive(Clone, Copy, Debug, PartialEq, Eq, Structural, Hash)]
pub struct OutOfBounds {
    pub value: u64,
    pub min: u64,
    pub max: u64,
}

impl BoundedU64 {
    /// The parameter for `value`: `default` when it is absent, the value
    /// itself when it lies in `min..=max`, an error otherwise.
    pub fn from_option(value: Option<u64>, default: u64, min: u64, max: u64) -> (r: Result<
        BoundedU64,
        OutOfBounds,
    >)
        ensures
            value is None ==> r == Ok::<BoundedU64, OutOfBounds>(BoundedU64 { value: default }),
            value is Some && min <= value->Some_0 <= max ==> r == Ok::<BoundedU64, OutOfBounds>(
                BoundedU64 { value: value->Some_0 },
            ),
            value is Some && !(min <= value->Some_0 <= max) ==> r == Err::<BoundedU64, OutOfBounds>(
                OutOfBounds { value: value->Some_0, min, max },
            ),
    {
        match value {
            None => Ok(BoundedU64 { value: default }),
            Some(v) => if min <= v && v <= max {
                Ok(BoundedU64 { value: v })
            } else {
                Err(OutOfBounds { value: v, min, max })
            },
        }
    }
}

/// `parts` separated by `, `.
pub open spec fn joined(parts: Seq<Seq<char>>) -> Seq<char>
    decreases parts.len(),
{
    if parts.len() == 0 {
        Seq::empty()
    } else if parts.len() == 1 {
        parts[0]
    } else {
        joined(parts.drop_last()) + ", "@ + parts.last()
    }
}

/// The statement that sets `assignments` on the row of table `table` with a
/// given `id`.
pub open spec fn update_statement(table: Seq<char>, assignments: Seq<Seq<char>>) -> Seq<char> {
    "UPDATE "@ + table + " SET "@ + joined(assignments) + " WHERE id = ?"@
}

pub struct UpdateQueryView {
    pub table: Seq<char>,
    pub assignments: Seq<Seq<char>>,
}

/// An `UPDATE` of one row by ID that sets only the columns it was given.
/// Each assignment takes one positional parameter; the caller binds the
/// values in the order the columns were set, and the ID last.
pub struct UpdateQuery {
    table: String,
    assignments: Vec<String>,
}

impl View for UpdateQuery {
    type V = UpdateQueryView;

    closed spec fn view(&self) -> UpdateQueryView {
        UpdateQueryView {
            table: self.table@,
            assignments: self.assignments@.map_values(|a: String| a@),
        }
    }
}

impl UpdateQuery {
    /// An update of `table` that sets nothing yet.
    pub fn new(table: &str) -> (r: UpdateQuery)
        ensures
            r@.table == table@,
            r@.assignments.len() == 0,
    {
        let r = UpdateQuery { table: table.to_owned(), assignments: Vec::new() };
        assert(r@.assignments =~= Seq::<Seq<char>>::empty());
        r
    }

    /// Sets `column` to the next parameter.
    pub fn set(&mut self, column: &str)
        ensures
            final(self)@.table == old(self)@.table,
            final(self)@.assignments == old(self)@.assignments.push(column@ + " = ?"@),
    {
        let a = column.to_owned().concat(" = ?");
        self.assignments.push(a);
        assert(self@.assignments =~= old(self)@.assignments.push(column@ + " = ?"@));
    }

    /// Sets `column` to the timestamp whose unix seconds are the next
    /// parameter.
    pub fn set_timestamp(&mut self, column: &str)
        ensures
            final(self)@.table == old(self)@.table,
            final(self)@.assignments == old(self)@.assignments.push(
                column@ + " = FROM_UNIXTIME(?)"@,
            ),
    {
        let a = column.to_owned().concat(" = FROM_UNIXTIME(?)");
        self.assignments.push(a);
        assert(self@.assignments =~= old(self)@.assignments.push(
            column@ + " = FROM_UNIXTIME(?)"@,
        ));
    }

    /// The statement, or `None` when no column was set.
    pub fn build(&self) -> (r: Option<String>)
        ensures
            self@.assignments.len() == 0 <==> r is None,
            r is Some ==> r->Some_0@ == update_statement(self@.table, self@.assignments),
    {
        let n = self.assignments.len();
        if n == 0 {
            return None;
        }
        let ghost parts = self@.assignments;
        let mut list = String::new();
        let mut i: usize = 0;
        while i < n
            invariant
                i <= n,
                n == parts.len(),
                parts == self@.assignments,
                list@ == joined(parts.subrange(0, i as int)),
            decreases n - i,
        {
            proof {
                let next = parts.subrange(0, i as int + 1);
                assert(next.drop_last() =~= parts.subrange(0, i as int));
                assert(next.last() == self.assignments@[i as int]@);
            }
            if i > 0 {
                list.append(", ");
            }
            list.append(self.assignments[i].as_str());
            if i == 0 {
                assert(list@ =~= joined(parts.subrange(0, 1)));
            } else {
                assert(list@ =~= joined(parts.subrange(0, i as int + 1)));
            }
            i = i + 1;
        }
        assert(parts.subrange(0, n as int) =~= parts);
        let mut text = String::new();
        text.append("UPDATE ");
        text.append(self.table.as_str());
        text.append(" SET ");
        text.append(list.as_str());
        text.append(" WHERE id = ?");
        assert(text@ =~= update_statement(self@.table, self@.assignments));
        Some(text)
    }
}

} // verus!
