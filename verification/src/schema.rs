//! Tables and their columns, as the planner sees the catalog.

use vstd::prelude::*;

verus! {

/// A column of a table.
#[derive(Clone, Debug, PartialEq, Eq)]
pub struct Column {
    /// The name, in normal form.
    pub name: String,
}

/// A table stored as a B-tree.
///
/// Two values stand for the same table exactly if their root pages agree;
/// the names and columns are not consulted for identity.
#[derive(Clone, Debug)]
pub struct BTreeTable {
    /// The page at which the table's tree is rooted; the table's identity.
    pub root_page: usize,
    /// The name under which the table was created.
    pub name: String,
    /// The columns, in the order of their declaration.
    pub columns: Vec<Column>,
}

/// The names of a list of columns.
pub open spec fn column_names(columns: Seq<Column>) -> Seq<Seq<char>> {
    Seq::new(columns.len(), |i: int| columns[i].name@)
}

/// The first position at or after `from` at which `names` holds `name`, or
/// the length of `names` where there is none.
pub open spec fn position_from(names: Seq<Seq<char>>, name: Seq<char>, from: int) -> int
    decreases names.len() - from,
{
    if from < 0 || from >= names.len() {
        names.len() as int
    } else if names[from] == name {
        from
    } else {
        position_from(names, name, from + 1)
    }
}

/// The first position at which `names` holds `name`, if any.
pub open spec fn position_of(names: Seq<Seq<char>>, name: Seq<char>) -> Option<int> {
    let at = position_from(names, name, 0);
    if at < names.len() {
        Some(at)
    } else {
        None
    }
}

/// What `position_from` finds is the first occurrence at or after `from`.
pub proof fn lemma_position_from(names: Seq<Seq<char>>, name: Seq<char>, from: int)
    requires
        0 <= from <= names.len(),
    ensures
        from <= position_from(names, name, from) <= names.len(),
        position_from(names, name, from) < names.len() ==> names[position_from(
            names,
            name,
            from,
        )] == name,
        forall|i: int| from <= i < position_from(names, name, from) ==> names[i] != name,
    decreases names.len() - from,
{
    if from < names.len() && names[from] != name {
        lemma_position_from(names, name, from + 1);
    }
}

impl BTreeTable {
    /// The names of the table's columns.
    pub open spec fn names(self) -> Seq<Seq<char>> {
        column_names(self.columns@)
    }

    /// Looks a column up by its name in normal form; gives the position of
    /// the first column of that name.
    #[verifier::loop_isolation(false)]
    pub fn get_column(&self, name: &str) -> (found: Option<usize>)
        ensures
            match found {
                Some(at) => position_of(self.names(), name@) == Some(at as int) && at
                    < self.columns@.len() && self.columns@[at as int].name@ == name@
                    && forall|i: int| 0 <= i < at ==> (#[trigger] self.columns@[i]).name@ != name@,
                None => position_of(self.names(), name@) is None && forall|i: int|
                    0 <= i < self.columns@.len() ==> (#[trigger] self.columns@[i]).name@ != name@,
            },
    {
        proof {
            lemma_position_from(self.names(), name@, 0);
            assert forall|i: int| 0 <= i < self.columns@.len() implies self.names()[i]
                == (#[trigger] self.columns@[i]).name@ by {}
        }
        let wanted = name.to_owned();
        let mut i: usize = 0;
        while i < self.columns.len()
            invariant
                i <= self.columns.len(),
                position_from(self.names(), name@, 0) == position_from(self.names(), name@, i as int),
            decreases self.columns.len() - i,
        {
            if self.columns[i].name == wanted {
                return Some(i);
            }
            i = i + 1;
        }
        None
    }
}

} // verus!
