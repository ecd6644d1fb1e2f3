//! Named, typed tables and the map from source names to tables.
use vstd::prelude::*;

verus! {

/// The values of one column, all of one type; `None` is a missing value.
#[derive(Clone, Debug)]
pub enum Series {
    Int(Vec<Option<i64>>),
    Bool(Vec<Option<bool>>),
    Text(Vec<Option<String>>),
    Binary(Vec<Option<Vec<u8>>>),
}

impl Series {
    pub open spec fn spec_len(&self) -> nat {
        match self {
            Series::Int(v) => v@.len(),
            Series::Bool(v) => v@.len(),
            Series::Text(v) => v@.len(),
            Series::Binary(v) => v@.len(),
        }
    }

    /// The number of values.
    pub fn len(&self) -> (r: usize)
        ensures
            r == self.spec_len(),
    {
        match self {
            Series::Int(v) => v.len(),
            Series::Bool(v) => v.len(),
            Series::Text(v) => v.len(),
            Series::Binary(v) => v.len(),
        }
    }
}

/// A named column.
#[derive(Clone, Debug)]
pub struct Column {
    pub name: String,
    pub values: Series,
}

impl Column {
    /// A column named `name` holding `values`.
    pub fn new(name: String, values: Series) -> (r: Column)
        ensures
            r.name == name,
            r.values == values,
    {
        Column { name, values }
    }
}

/// The index of the first column named `name` among `cols[from..]`.
pub open spec fn column_index_from(cols: Seq<Column>, name: Seq<char>, from: int) -> Option<int>
    decreases cols.len() - from,
{
    if from < 0 || from >= cols.len() {
        None
    } else if cols[from].name@ == name {
        Some(from)
    } else {
        column_index_from(cols, name, from + 1)
    }
}

/// The index of the first column named `name`.
pub open spec fn column_index(cols: Seq<Column>, name: Seq<char>) -> Option<int> {
    column_index_from(cols, name, 0)
}

/// The columns all hold `height` values and no two share a name.
pub open spec fn columns_well_formed(cols: Seq<Column>, height: nat) -> bool {
    &&& forall|i: int| 0 <= i < cols.len() ==> (#[trigger] cols[i]).values.spec_len() == height
    &&& forall|i: int, j: int|
        0 <= i < j < cols.len() ==> (#[trigger] cols[i]).name@ != (#[trigger] cols[j]).name@
}

/// The height a list of columns gives a table: that of its first column.
pub open spec fn height_of(cols: Seq<Column>) -> nat {
    if cols.len() == 0 {
        0
    } else {
        cols[0].values.spec_len()
    }
}

/// A table: ordered columns of equal length with distinct names.
#[derive(Debug)]
pub struct DataFrame {
    columns: Vec<Column>,
}

impl View for DataFrame {
    type V = Seq<Column>;

    closed spec fn view(&self) -> Seq<Column> {
        self.columns@
    }
}

impl DataFrame {
    #[verifier::type_invariant]
    spec fn well_formed(self) -> bool {
        columns_well_formed(self.columns@, height_of(self.columns@))
    }

    /// The number of rows.
    pub open spec fn spec_height(&self) -> nat {
        height_of(self@)
    }

    /// Builds a table from its columns; `None` where two columns differ in
    /// length or share a name.
    pub fn new(columns: Vec<Column>) -> (r: Option<DataFrame>)
        ensures
            r is Some <==> columns_well_formed(columns@, height_of(columns@)),
            r matches Some(f) ==> f@ == columns@,
    {
        let n = columns.len();
        let height: usize = if n == 0 { 0 } else { columns[0].values.len() };
        let mut i: usize = 0;
        while i < n
            invariant
                n == columns@.len(),
                height == height_of(columns@),
                i <= n,
                columns_well_formed(columns@.take(i as int), height_of(columns@)),
            decreases n - i,
        {
            if columns[i].values.len() != height {
                assert(!columns_well_formed(columns@, height_of(columns@)) ) by {
                    assert(columns@[i as int].values.spec_len() != height_of(columns@));
                }
                return None;
            }
            let mut j: usize = 0;
            while j < i
                invariant
                    n == columns@.len(),
                    i < n,
                    j <= i,
                    forall|k: int| 0 <= k < j ==> columns@[k].name@ != columns@[i as int].name@,
                decreases i - j,
            {
                if columns[j].name == columns[i].name {
                    assert(!columns_well_formed(columns@, height_of(columns@))) by {
                        assert(columns@[j as int].name@ == columns@[i as int].name@);
                    }
                    return None;
                }
                j = j + 1;
            }
            assert(columns_well_formed(columns@.take(i + 1), height_of(columns@))) by {
                let t = columns@.take(i + 1);
                assert forall|a: int, b: int| 0 <= a < b < t.len() implies (#[trigger] t[a]).name@
                    != (#[trigger] t[b]).name@ by {
                    if b < i {
                        assert(t[a] == columns@.take(i as int)[a]);
                        assert(t[b] == columns@.take(i as int)[b]);
                    }
                }
                assert forall|a: int| 0 <= a < t.len() implies (#[trigger] t[a]).values.spec_len()
                    == height_of(columns@) by {
                    if a < i {
                        assert(t[a] == columns@.take(i as int)[a]);
                    }
                }
            }
            i = i + 1;
        }
        assert(columns@.take(n as int) =~= columns@);
        Some(DataFrame { columns })
    }

    /// The number of rows.
    pub fn height(&self) -> (r: usize)
        ensures
            r == self.spec_height(),
    {
        if self.columns.len() == 0 {
            0
        } else {
            self.columns[0].values.len()
        }
    }

    /// The number of columns.
    pub fn width(&self) -> (r: usize)
        ensures
            r == self@.len(),
    {
        self.columns.len()
    }

    /// The columns in order.
    pub fn columns(&self) -> (r: &Vec<Column>)
        ensures
            r@ == self@,
            columns_well_formed(self@, self.spec_height()),
    {
        proof {
            use_type_invariant(self);
        }
        &self.columns
    }

    /// The index of the column named `name`, if there is one.
    pub fn column_index(&self, name: &String) -> (r: Option<usize>)
        ensures
            r matches Some(i) ==> column_index(self@, name@) == Some(i as int) && i < self@.len()
                && self@[i as int].name@ == name@,
            r is None ==> column_index(self@, name@) is None,
    {
        let n = self.columns.len();
        let mut i: usize = 0;
        while i < n
            invariant
                n == self@.len(),
                i <= n,
                column_index(self@, name@) == column_index_from(self@, name@, i as int),
            decreases n - i,
        {
            if self.columns[i].name == *name {
                return Some(i);
            }
            i = i + 1;
        }
        None
    }
}

/// Some entry of `entries` is named `name`.
pub open spec fn has_entry(entries: Seq<(String, DataFrame)>, name: Seq<char>) -> bool {
    exists|i: int| 0 <= i < entries.len() && (#[trigger] entries[i]).0@ == name
}

/// No two entries of `entries` share a name.
pub open spec fn names_unique(entries: Seq<(String, DataFrame)>) -> bool {
    forall|i: int, j: int|
        0 <= i < entries.len() && 0 <= j < entries.len() && (#[trigger] entries[i]).0@
            == (#[trigger] entries[j]).0@ ==> i == j
}

/// The map from names to tables that a list of entries with distinct names describes.
pub open spec fn map_of(entries: Seq<(String, DataFrame)>) -> Map<Seq<char>, DataFrame> {
    Map::new(
        |name: Seq<char>| has_entry(entries, name),
        |name: Seq<char>|
            entries[choose|i: int| 0 <= i < entries.len() && (#[trigger] entries[i]).0@ == name].1,
    )
}

/// The position of the first entry named `name`, if there is one.
fn position(entries: &Vec<(String, DataFrame)>, name: &String) -> (r: Option<usize>)
    ensures
        r is None ==> !has_entry(entries@, name@),
        r matches Some(i) ==> i < entries@.len() && entries@[i as int].0@ == name@,
{
    let n = entries.len();
    let mut i: usize = 0;
    while i < n
        invariant
            n == entries@.len(),
            i <= n,
            forall|k: int| 0 <= k < i ==> (#[trigger] entries@[k]).0@ != name@,
        decreases n - i,
    {
        if entries[i].0 == *name {
            return Some(i);
        }
        i = i + 1;
    }
    None
}

/// The tables of a plot, each under its source name.
#[derive(Debug)]
pub struct DataMap {
    entries: Vec<(String, DataFrame)>,
}

impl View for DataMap {
    type V = Map<Seq<char>, DataFrame>;

    closed spec fn view(&self) -> Map<Seq<char>, DataFrame> {
        map_of(self.entries@)
    }
}

impl DataMap {
    #[verifier::type_invariant]
    spec fn well_formed(self) -> bool {
        names_unique(self.entries@)
    }

    /// An empty map.
    pub fn new() -> (r: DataMap)
        ensures
            r@ == Map::<Seq<char>, DataFrame>::empty(),
    {
        let r = DataMap { entries: Vec::new() };
        assert(r@ =~= Map::<Seq<char>, DataFrame>::empty());
        r
    }

    /// The table named `name`, if the map has one.
    pub fn get(&self, name: &String) -> (r: Option<&DataFrame>)
        ensures
            r is Some <==> self@.contains_key(name@),
            r matches Some(f) ==> *f == self@[name@],
    {
        proof {
            use_type_invariant(self);
        }
        match position(&self.entries, name) {
            None => None,
            Some(i) => {
                let ghost e = self.entries@;
                assert(has_entry(e, name@));
                let ghost j = choose|j: int| 0 <= j < e.len() && (#[trigger] e[j]).0@ == name@;
                assert(e[j].0@ == name@);
                assert(j == i);
                Some(&self.entries[i].1)
            },
        }
    }

    /// Puts `frame` under `name`, in place of any table that was there.
    pub fn insert(&mut self, name: String, frame: DataFrame)
        ensures
            final(self)@ == old(self)@.insert(name@, frame),
    {
        let mut taken = DataMap::new();
        core::mem::swap(self, &mut taken);
        proof {
            use_type_invariant(&taken);
        }
        let DataMap { mut entries } = taken;
        let ghost before = entries@;
        let ghost key = name@;
        if let Some(i) = position(&entries, &name) {
            let ghost e0 = entries@;
            entries.remove(i);
            proof {
                assert(e0[i as int].0@ == key);
                assert forall|k: int| 0 <= k < entries@.len() implies (#[trigger] entries@[k]).0@ != key by {
                    if k < i {
                        assert(entries@[k] == e0[k]);
                    } else {
                        assert(entries@[k] == e0[k + 1]);
                        assert(e0[k + 1].0@ != e0[i as int].0@);
                    }
                }
                assert forall|k: int| 0 <= k < before.len() && (#[trigger] before[k]).0@ != key implies entries@.contains(before[k]) by {
                    if k < i {
                        assert(entries@[k] == e0[k]);
                    } else {
                        assert(k != i);
                        assert(entries@[k - 1] == e0[k]);
                    }
                }
                assert forall|k: int| 0 <= k < entries@.len() && (#[trigger] entries@[k]).0@ != key implies before.contains(entries@[k]) by {
                    if k < i {
                        assert(entries@[k] == e0[k]);
                    } else {
                        assert(entries@[k] == e0[k + 1]);
                    }
                }
            }
        } else {
            proof {
                assert forall|k: int| 0 <= k < before.len() && (#[trigger] before[k]).0@ != key implies entries@.contains(before[k]) by {
                    assert(entries@[k] == before[k]);
                }
            }
        }
        let ghost mid = entries@;
        entries.push((name, frame));
        proof {
            let after = entries@;
            assert(names_unique(after));
            assert forall|s: Seq<char>| #[trigger] has_entry(after, s) == (s == key || has_entry(before, s)) by {
                if s == key {
                    assert(after[after.len() - 1].0@ == key);
                } else {
                    if has_entry(before, s) {
                        let j = choose|j: int| 0 <= j < before.len() && (#[trigger] before[j]).0@ == s;
                        assert(mid.contains(before[j]));
                        let m = choose|m: int| 0 <= m < mid.len() && mid[m] == before[j];
                        assert(after[m] == mid[m]);
                        assert(after[m].0@ == s);
                    }
                    if has_entry(after, s) {
                        let j = choose|j: int| 0 <= j < after.len() && (#[trigger] after[j]).0@ == s;
                        assert(j < mid.len());
                        assert(after[j] == mid[j]);
                        assert(before.contains(mid[j]));
                        let b = choose|b: int| 0 <= b < before.len() && before[b] == mid[j];
                        assert(before[b].0@ == s);
                    }
                }
            }
            assert(map_of(after) =~= map_of(before).insert(key, frame)) by {
                assert forall|s: Seq<char>| #[trigger] map_of(after).contains_key(s) implies map_of(after)[s]
                    == map_of(before).insert(key, frame)[s] by {
                    let j = choose|j: int| 0 <= j < after.len() && (#[trigger] after[j]).0@ == s;
                    if s == key {
                        assert(after[after.len() - 1].0@ == key);
                    } else {
                        let b = choose|b: int| 0 <= b < before.len() && (#[trigger] before[b]).0@ == s;
                        assert(after[j] == mid[j]);
                        assert(before.contains(mid[j]));
                        let c = choose|c: int| 0 <= c < before.len() && before[c] == mid[j];
                        assert(before[c].0@ == s);
                    }
                }
            }
        }
        *self = DataMap { entries };
    }
}

} // verus!
