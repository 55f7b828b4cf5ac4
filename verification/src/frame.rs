//! The table: an ordered collection of labeled, equally-long columns.
//!
//! Labels need not be unique — lookup returns the first match, and a
//! label that resolves nowhere is a caller error ruled out by `requires`,
//! as is inspecting the element type of an empty column.

use vstd::prelude::*;
use crate::value::DataTypes;
use crate::value::FloatType;
use crate::value::IntegerType;
use crate::value::ValueModel;
use crate::value::ColumnKind;
use crate::value::vals;
use crate::value::spec_kind_of;
use crate::value::spec_fvalue;
use crate::value::spec_ivalue;
use crate::value::kind_of;
use crate::value::clone_value;
use crate::stats::spec_col_mean;
use crate::stats::spec_col_stddev;
use crate::stats::spec_col_pstddev;
use crate::stats::spec_col_variance;
use crate::stats::spec_col_diff;
use crate::stats::spec_col_pct_change;
use crate::stats::col_mean;
use crate::stats::col_stddev;
use crate::stats::col_pstddev;
use crate::stats::col_variance;
use crate::stats::col_diff;
use crate::stats::col_pct_change;
use crate::rolling::spec_col_rolling_mean;
use crate::rolling::spec_col_rolling_stddev;
use crate::rolling::spec_col_rolling_variance;
use crate::rolling::spec_rolling_div_ok;
use crate::rolling::col_rolling_mean;
use crate::rolling::col_rolling_stddev;
use crate::rolling::col_rolling_variance;

verus! {

/// The first index at which `name` occurs in `ls`; `ls.len()` when it
/// occurs nowhere.
pub open spec fn spec_col_index(ls: Seq<Seq<char>>, name: Seq<char>) -> int
    decreases ls.len(),
{
    if ls.len() == 0 {
        0
    } else if ls[0] == name {
        0
    } else {
        1 + spec_col_index(ls.skip(1), name)
    }
}

/// Whether some label of `ls` is `name`.
pub open spec fn spec_has_label(ls: Seq<Seq<char>>, name: Seq<char>) -> bool {
    exists|i: int| 0 <= i < ls.len() && ls[i] == name
}

pub proof fn lemma_col_index_props(ls: Seq<Seq<char>>, name: Seq<char>)
    ensures
        0 <= spec_col_index(ls, name) <= ls.len(),
        spec_has_label(ls, name) ==> spec_col_index(ls, name) < ls.len() && ls[spec_col_index(
            ls,
            name,
        )] == name,
        forall|j: int| 0 <= j < spec_col_index(ls, name) ==> ls[j] != name,
    decreases ls.len(),
{
    if ls.len() > 0 && ls[0] != name {
        lemma_col_index_props(ls.skip(1), name);
        if spec_has_label(ls, name) {
            let i = choose|i: int| 0 <= i < ls.len() && ls[i] == name;
            assert(ls.skip(1)[i - 1] == name);
            assert(spec_has_label(ls.skip(1), name));
        }
        assert forall|j: int| 0 <= j < spec_col_index(ls, name) implies ls[j] != name by {
            if j > 0 {
                assert(ls.skip(1)[j - 1] == ls[j]);
            }
        }
    }
}

/// The single-column conversion `column` performs: a float column copies
/// each cell's floating-point reading, an integer column each cell's
/// integer reading, and a text column degrades to the floating-point
/// reading (NaN for genuine text).
pub open spec fn spec_converted(k: ColumnKind, s: Seq<ValueModel>) -> Seq<ValueModel> {
    match k {
        ColumnKind::Integers => Seq::new(s.len(), |i: int| ValueModel::Integer(spec_ivalue(s[i]))),
        _ => Seq::new(s.len(), |i: int| ValueModel::Float(spec_fvalue(s[i]))),
    }
}

/// A table of labeled columns.
pub struct DataFrame {
    labels: Vec<String>,
    columns: Vec<Vec<DataTypes>>,
}

impl DataFrame {
    /// The labels, as character sequences.
    pub closed spec fn spec_labels(&self) -> Seq<Seq<char>> {
        self.labels@.map_values(|l: String| l@)
    }

    /// The columns, as sequences of cell models.
    pub closed spec fn spec_columns(&self) -> Seq<Seq<ValueModel>> {
        self.columns@.map_values(|c: Vec<DataTypes>| vals(c@))
    }

    /// The table's invariant: one column per label.
    pub open spec fn wf(&self) -> bool {
        self.spec_labels().len() == self.spec_columns().len()
    }

    /// An empty table.
    pub fn new() -> (r: DataFrame)
        ensures
            r.wf(),
            r.spec_labels() == Seq::<Seq<char>>::empty(),
            r.spec_columns() == Seq::<Seq<ValueModel>>::empty(),
    {
        let r = DataFrame { labels: Vec::new(), columns: Vec::new() };
        proof {
            assert(r.spec_labels() =~= Seq::<Seq<char>>::empty());
            assert(r.spec_columns() =~= Seq::<Seq<ValueModel>>::empty());
        }
        r
    }

    /// Replaces the table's contents with the given (label, column)
    /// pairs; the caller is responsible for supplying equal-length
    /// columns.
    pub fn load_data(&mut self, data: &Vec<(&str, Vec<DataTypes>)>)
        ensures
            final(self).wf(),
            final(self).spec_labels() == Seq::new(data@.len(), |i: int| data@[i].0@),
            final(self).spec_columns() == Seq::new(data@.len(), |i: int| vals(data@[i].1@)),
    {
        let n = data.len();
        let mut labels: Vec<String> = Vec::new();
        let mut columns: Vec<Vec<DataTypes>> = Vec::new();
        let mut i: usize = 0;
        while i < n
            invariant
                0 <= i <= n,
                n == data@.len(),
                labels@.len() == i,
                columns@.len() == i,
                forall|j: int| 0 <= j < i ==> #[trigger] labels@[j]@ == data@[j].0@,
                forall|j: int| 0 <= j < i ==> #[trigger] vals(columns@[j]@) == vals(data@[j].1@),
            decreases n - i,
        {
            labels.push(data[i].0.to_owned());
            columns.push(clone_column(&data[i].1));
            i = i + 1;
        }
        self.labels = labels;
        self.columns = columns;
        proof {
            assert(self.spec_labels() =~= Seq::new(data@.len(), |i: int| data@[i].0@));
            assert(self.spec_columns() =~= Seq::new(data@.len(), |i: int| vals(data@[i].1@)));
        }
    }

    /// Appends one (label, column) pair.
    pub fn add_column(&mut self, data: &(&str, Vec<DataTypes>))
        ensures
            final(self).spec_labels() == old(self).spec_labels().push(data.0@),
            final(self).spec_columns() == old(self).spec_columns().push(vals(data.1@)),
            old(self).wf() ==> final(self).wf(),
    {
        self.labels.push(data.0.to_owned());
        self.columns.push(clone_column(&data.1));
        proof {
            assert(self.spec_labels() =~= old(self).spec_labels().push(data.0@));
            assert(self.spec_columns() =~= old(self).spec_columns().push(vals(data.1@)));
        }
    }

    /// The index of the first column labeled `column_name`; resolving an
    /// absent label is a caller error.
    pub fn get_column_index(&self, column_name: &str) -> (idx: usize)
        requires
            spec_has_label(self.spec_labels(), column_name@),
        ensures
            idx == spec_col_index(self.spec_labels(), column_name@),
    {
        proof {
            lemma_col_index_props(self.spec_labels(), column_name@);
        }
        let n = self.labels.len();
        let mut i: usize = 0;
        while i < n
            invariant
                0 <= i <= n,
                n == self.spec_labels().len(),
                spec_has_label(self.spec_labels(), column_name@),
                i <= spec_col_index(self.spec_labels(), column_name@) < n,
                self.spec_labels()[spec_col_index(self.spec_labels(), column_name@)]
                    == column_name@,
                forall|j: int| 0 <= j < spec_col_index(self.spec_labels(), column_name@)
                    ==> self.spec_labels()[j] != column_name@,
            decreases n - i,
        {
            let hit = crate::textnum::str_eq(self.labels[i].as_str(), column_name);
            proof {
                assert(self.spec_labels()[i as int] == self.labels@[i as int]@);
            }
            if hit {
                proof {
                    let sci = spec_col_index(self.spec_labels(), column_name@);
                    if i < sci {
                        assert(self.spec_labels()[i as int] != column_name@);
                    }
                }
                return i;
            }
            i = i + 1;
        }
        proof {
            assert(false);
        }
        0
    }

    /// How many columns the table has.
    pub fn column_count(&self) -> (r: usize)
        requires
            self.wf(),
        ensures
            r == self.spec_columns().len(),
            r == self.spec_labels().len(),
    {
        self.columns.len()
    }

    /// The label of column `idx`.
    pub fn label_at(&self, idx: usize) -> (r: &String)
        requires
            idx < self.spec_labels().len(),
        ensures
            r@ == self.spec_labels()[idx as int],
    {
        &self.labels[idx]
    }

    /// The cells of column `idx`.
    pub fn column_at(&self, idx: usize) -> (r: &Vec<DataTypes>)
        requires
            self.wf(),
            idx < self.spec_columns().len(),
        ensures
            vals(r@) == self.spec_columns()[idx as int],
    {
        &self.columns[idx]
    }

    /// Whether column `idx` is integer-typed (by its first cell).
    pub fn column_is_integer(&self, idx: usize) -> (r: bool)
        requires
            self.wf(),
            idx < self.spec_columns().len(),
            self.spec_columns()[idx as int].len() > 0,
        ensures
            r == (spec_kind_of(self.spec_columns()[idx as int][0]) == ColumnKind::Integers),
    {
        let k = kind_of(&self.columns[idx][0]);
        match k {
            ColumnKind::Integers => true,
            _ => false,
        }
    }

    /// Whether column `idx` is float-typed (by its first cell).
    pub fn column_is_float(&self, idx: usize) -> (r: bool)
        requires
            self.wf(),
            idx < self.spec_columns().len(),
            self.spec_columns()[idx as int].len() > 0,
        ensures
            r == (spec_kind_of(self.spec_columns()[idx as int][0]) == ColumnKind::Floats),
    {
        let k = kind_of(&self.columns[idx][0]);
        match k {
            ColumnKind::Floats => true,
            _ => false,
        }
    }

    /// Whether column `idx` is text-typed (by its first cell).
    pub fn column_is_string(&self, idx: usize) -> (r: bool)
        requires
            self.wf(),
            idx < self.spec_columns().len(),
            self.spec_columns()[idx as int].len() > 0,
        ensures
            r == (spec_kind_of(self.spec_columns()[idx as int][0]) == ColumnKind::Texts),
    {
        let k = kind_of(&self.columns[idx][0]);
        match k {
            ColumnKind::Texts => true,
            _ => false,
        }
    }

    /// The sniffed kind of the first column labeled `column_name`, and
    /// that column's index.
    fn resolve(&self, column_name: &str) -> (r: (usize, ColumnKind))
        requires
            self.wf(),
            spec_has_label(self.spec_labels(), column_name@),
            spec_col_len(self, column_name@) > 0,
        ensures
            r.0 == spec_col_index(self.spec_labels(), column_name@),
            r.0 < self.spec_columns().len(),
            r.1 == spec_kind_of(self.spec_columns()[r.0 as int][0]),
    {
        proof {
            lemma_col_index_props(self.spec_labels(), column_name@);
        }
        let idx = self.get_column_index(column_name);
        let k = kind_of(&self.columns[idx][0]);
        (idx, k)
    }

    /// A one-column table holding a converted copy of the first column
    /// labeled `column_name` (see [`spec_converted`]).
    pub fn column(&self, column_name: &str) -> (r: DataFrame)
        requires
            self.wf(),
            spec_has_label(self.spec_labels(), column_name@),
            spec_col_len(self, column_name@) > 0,
        ensures
            r.wf(),
            r.spec_labels() == seq![column_name@],
            r.spec_columns() == seq![
                spec_converted(
                    spec_kind_of(spec_col_of(self, column_name@)[0]),
                    spec_col_of(self, column_name@),
                ),
            ],
    {
        let (idx, k) = self.resolve(column_name);
        let src = &self.columns[idx];
        let ghost s = vals(src@);
        let n = src.len();
        let mut out: Vec<DataTypes> = Vec::new();
        let mut i: usize = 0;
        while i < n
            invariant
                0 <= i <= n,
                n == src@.len(),
                s == vals(src@),
                s.len() == n,
                out@.len() == i,
                forall|j: int| 0 <= j < i ==> #[trigger] out@[j]@ == spec_converted(k, s)[j],
            decreases n - i,
        {
            let cell = match k {
                ColumnKind::Integers => DataTypes::IntegerType(
                    IntegerType { value: src[i].ivalue() },
                ),
                _ => DataTypes::FloatType(FloatType { bits: src[i].fvalue() }),
            };
            out.push(cell);
            i = i + 1;
        }
        let mut labels: Vec<String> = Vec::new();
        labels.push(column_name.to_owned());
        let mut columns: Vec<Vec<DataTypes>> = Vec::new();
        columns.push(out);
        let r = DataFrame { labels, columns };
        proof {
            assert(vals(r.columns@[0]@) =~= spec_converted(k, s));
            assert(r.spec_labels() =~= seq![column_name@]);
            assert(r.spec_columns() =~= seq![spec_converted(k, s)]);
        }
        r
    }

    /// A copy of the first column labeled `column_name`.
    pub fn series(&self, column_name: &str) -> (r: Vec<DataTypes>)
        requires
            self.wf(),
            spec_has_label(self.spec_labels(), column_name@),
        ensures
            vals(r@) == spec_col_of(self, column_name@),
    {
        proof {
            lemma_col_index_props(self.spec_labels(), column_name@);
        }
        let idx = self.get_column_index(column_name);
        clone_column(&self.columns[idx])
    }

    /// The mean of the column labeled `column_name`, dispatched on its
    /// sniffed kind.
    pub fn mean(&self, column_name: &str) -> (r: DataTypes)
        requires
            self.wf(),
            spec_has_label(self.spec_labels(), column_name@),
            spec_col_len(self, column_name@) > 0,
        ensures
            r@ == spec_col_mean(
                spec_kind_of(spec_col_of(self, column_name@)[0]),
                spec_col_of(self, column_name@),
            ),
    {
        let (idx, k) = self.resolve(column_name);
        col_mean(k, &self.columns[idx])
    }

    /// The sample deviation of the column labeled `column_name` (which
    /// divides by the full count, exactly as `pstddev` does).
    pub fn stddev(&self, column_name: &str) -> (r: DataTypes)
        requires
            self.wf(),
            spec_has_label(self.spec_labels(), column_name@),
            spec_col_len(self, column_name@) > 0,
        ensures
            r@ == spec_col_stddev(
                spec_kind_of(spec_col_of(self, column_name@)[0]),
                spec_col_of(self, column_name@),
            ),
    {
        let (idx, k) = self.resolve(column_name);
        col_stddev(k, &self.columns[idx])
    }

    /// The population deviation of the column labeled `column_name`.
    pub fn pstddev(&self, column_name: &str) -> (r: DataTypes)
        requires
            self.wf(),
            spec_has_label(self.spec_labels(), column_name@),
            spec_col_len(self, column_name@) > 0,
        ensures
            r@ == spec_col_pstddev(
                spec_kind_of(spec_col_of(self, column_name@)[0]),
                spec_col_of(self, column_name@),
            ),
    {
        let (idx, k) = self.resolve(column_name);
        col_pstddev(k, &self.columns[idx])
    }

    /// The variance of the column labeled `column_name`.
    pub fn variance(&self, column_name: &str) -> (r: DataTypes)
        requires
            self.wf(),
            spec_has_label(self.spec_labels(), column_name@),
            spec_col_len(self, column_name@) > 0,
        ensures
            r@ == spec_col_variance(
                spec_kind_of(spec_col_of(self, column_name@)[0]),
                spec_col_of(self, column_name@),
            ),
    {
        let (idx, k) = self.resolve(column_name);
        col_variance(k, &self.columns[idx])
    }

    /// A one-column table with the simple rolling mean of the column
    /// labeled `column_name` for window `window`.
    pub fn simple_rolling_mean(&self, column_name: &str, window: usize) -> (r: DataFrame)
        requires
            self.wf(),
            spec_has_label(self.spec_labels(), column_name@),
            spec_col_len(self, column_name@) > 0,
        ensures
            r.wf(),
            r.spec_labels() == seq![column_name@],
            r.spec_columns() == seq![
                spec_col_rolling_mean(
                    spec_kind_of(spec_col_of(self, column_name@)[0]),
                    spec_col_of(self, column_name@),
                    window as u64,
                ),
            ],
    {
        let (idx, k) = self.resolve(column_name);
        let rolled = col_rolling_mean(k, &self.columns[idx], window);
        self.wrap_derived(column_name, rolled)
    }

    /// A one-column table with the rolling deviation of the column
    /// labeled `column_name` for window `window`.
    pub fn rolling_stddev(&self, column_name: &str, window: usize) -> (r: DataFrame)
        requires
            self.wf(),
            spec_has_label(self.spec_labels(), column_name@),
            spec_col_len(self, column_name@) > 0,
            spec_rolling_div_ok(
                spec_kind_of(spec_col_of(self, column_name@)[0]),
                spec_col_of(self, column_name@).len(),
                window as u64,
            ),
        ensures
            r.wf(),
            r.spec_labels() == seq![column_name@],
            r.spec_columns() == seq![
                spec_col_rolling_stddev(
                    spec_kind_of(spec_col_of(self, column_name@)[0]),
                    spec_col_of(self, column_name@),
                    window as u64,
                ),
            ],
    {
        let (idx, k) = self.resolve(column_name);
        let rolled = col_rolling_stddev(k, &self.columns[idx], window);
        self.wrap_derived(column_name, rolled)
    }

    /// A one-column table with the rolling variance of the column
    /// labeled `column_name` for window `window`.
    pub fn rolling_variance(&self, column_name: &str, window: usize) -> (r: DataFrame)
        requires
            self.wf(),
            spec_has_label(self.spec_labels(), column_name@),
            spec_col_len(self, column_name@) > 0,
            spec_rolling_div_ok(
                spec_kind_of(spec_col_of(self, column_name@)[0]),
                spec_col_of(self, column_name@).len(),
                window as u64,
            ),
        ensures
            r.wf(),
            r.spec_labels() == seq![column_name@],
            r.spec_columns() == seq![
                spec_col_rolling_variance(
                    spec_kind_of(spec_col_of(self, column_name@)[0]),
                    spec_col_of(self, column_name@),
                    window as u64,
                ),
            ],
    {
        let (idx, k) = self.resolve(column_name);
        let rolled = col_rolling_variance(k, &self.columns[idx], window);
        self.wrap_derived(column_name, rolled)
    }

    /// A one-column table with the first difference of the column
    /// labeled `column_name`.
    pub fn diff(&self, column_name: &str) -> (r: DataFrame)
        requires
            self.wf(),
            spec_has_label(self.spec_labels(), column_name@),
            spec_col_len(self, column_name@) > 0,
        ensures
            r.wf(),
            r.spec_labels() == seq![column_name@],
            r.spec_columns() == seq![
                spec_col_diff(
                    spec_kind_of(spec_col_of(self, column_name@)[0]),
                    spec_col_of(self, column_name@),
                ),
            ],
    {
        let (idx, k) = self.resolve(column_name);
        let derived = col_diff(k, &self.columns[idx]);
        self.wrap_derived(column_name, derived)
    }

    /// A one-column table with the percent change of the column labeled
    /// `column_name`.
    pub fn pct_change(&self, column_name: &str) -> (r: DataFrame)
        requires
            self.wf(),
            spec_has_label(self.spec_labels(), column_name@),
            spec_col_len(self, column_name@) > 0,
        ensures
            r.wf(),
            r.spec_labels() == seq![column_name@],
            r.spec_columns() == seq![
                spec_col_pct_change(
                    spec_kind_of(spec_col_of(self, column_name@)[0]),
                    spec_col_of(self, column_name@),
                ),
            ],
    {
        let (idx, k) = self.resolve(column_name);
        let derived = col_pct_change(k, &self.columns[idx]);
        self.wrap_derived(column_name, derived)
    }

    fn wrap_derived(&self, column_name: &str, derived: Vec<DataTypes>) -> (r: DataFrame)
        ensures
            r.wf(),
            r.spec_labels() == seq![column_name@],
            r.spec_columns() == seq![vals(derived@)],
    {
        let mut labels: Vec<String> = Vec::new();
        labels.push(column_name.to_owned());
        let mut columns: Vec<Vec<DataTypes>> = Vec::new();
        columns.push(derived);
        let r = DataFrame { labels, columns };
        proof {
            assert(r.spec_labels() =~= seq![column_name@]);
            assert(r.spec_columns() =~= seq![vals(r.columns@[0]@)]);
        }
        r
    }
}

/// The first column of `df` labeled `name`.
pub open spec fn spec_col_of(df: &DataFrame, name: Seq<char>) -> Seq<ValueModel> {
    df.spec_columns()[spec_col_index(df.spec_labels(), name)]
}

/// Its length.
pub open spec fn spec_col_len(df: &DataFrame, name: Seq<char>) -> nat {
    spec_col_of(df, name).len()
}

/// A copy of a column whose cell models are the same.
pub fn clone_column(col: &Vec<DataTypes>) -> (r: Vec<DataTypes>)
    ensures
        vals(r@) == vals(col@),
        r@.len() == col@.len(),
{
    let n = col.len();
    let mut out: Vec<DataTypes> = Vec::new();
    let mut i: usize = 0;
    while i < n
        invariant
            0 <= i <= n,
            n == col@.len(),
            out@.len() == i,
            forall|j: int| 0 <= j < i ==> #[trigger] out@[j]@ == col@[j]@,
        decreases n - i,
    {
        out.push(clone_value(&col[i]));
        i = i + 1;
    }
    proof {
        assert(vals(out@) =~= vals(col@));
    }
    out
}

} // verus!
