//! The grouping engine: an index over a table built from one or more key
//! columns.
//!
//! Grouping on several columns does not build a joint composite key: each
//! selected column is partitioned independently, mapping every distinct
//! cell value of that column to the ordered list of row indices that
//! carry it. Buckets appear in order of first occurrence; rows within a
//! bucket keep row order. A group borrows its table and owns only its
//! derived partition indices.

use vstd::prelude::*;
use crate::value::DataTypes;
use crate::value::ValueModel;
use crate::value::ColumnKind;
use crate::value::vals;
use crate::value::value_eq;
use crate::value::clone_value;
use crate::value::kind_of;
use crate::value::spec_kind_of;
use crate::value::spec_svalue;
use crate::frame::DataFrame;
use crate::frame::spec_col_index;
use crate::frame::spec_has_label;
use crate::frame::lemma_col_index_props;
use crate::stats::spec_col_mean;
use crate::stats::spec_col_stddev;
use crate::stats::spec_col_pstddev;
use crate::stats::spec_col_variance;
use crate::stats::spec_col_diff;
use crate::stats::spec_col_pct_change;
use crate::stats::col_mean;
use crate::stats::col_stddev;
use crate::stats::col_pstddev;
use crate::stats::col_variance;
use crate::stats::col_diff;
use crate::stats::col_pct_change;
use crate::rolling::spec_col_rolling_mean;
use crate::rolling::spec_col_rolling_stddev;
use crate::rolling::spec_col_rolling_variance;
use crate::rolling::spec_rolling_div_ok;
use crate::rolling::col_rolling_mean;
use crate::rolling::col_rolling_stddev;
use crate::rolling::col_rolling_variance;

verus! {

/// The distinct cell values of a column, in order of first occurrence.
pub open spec fn spec_keys(col: Seq<ValueModel>) -> Seq<ValueModel>
    decreases col.len(),
{
    if col.len() == 0 {
        Seq::empty()
    } else {
        let p = spec_keys(col.drop_last());
        if p.contains(col.last()) {
            p
        } else {
            p.push(col.last())
        }
    }
}

/// The row indices whose cell in `col` is `k`, in row order.
pub open spec fn spec_bucket_rows(col: Seq<ValueModel>, k: ValueModel) -> Seq<usize>
    decreases col.len(),
{
    if col.len() == 0 {
        Seq::empty()
    } else {
        let p = spec_bucket_rows(col.drop_last(), k);
        if col.last() == k {
            p.push((col.len() - 1) as usize)
        } else {
            p
        }
    }
}

/// The partition of a column: one bucket per distinct value, keyed in
/// order of first occurrence, each holding its rows in row order.
pub open spec fn spec_partition(col: Seq<ValueModel>) -> Seq<(ValueModel, Seq<usize>)> {
    Seq::new(
        spec_keys(col).len(),
        |i: int| (spec_keys(col)[i], spec_bucket_rows(col, spec_keys(col)[i])),
    )
}

/// A key occurs in the key list exactly when it occurs in the column.
pub proof fn lemma_keys_contains(col: Seq<ValueModel>, x: ValueModel)
    ensures
        spec_keys(col).contains(x) <==> col.contains(x),
    decreases col.len(),
{
    if col.len() > 0 {
        lemma_keys_contains(col.drop_last(), x);
        let p = spec_keys(col.drop_last());
        let keys = spec_keys(col);
        if col.contains(x) {
            let i = choose|i: int| 0 <= i < col.len() && col[i] == x;
            if i < col.len() - 1 {
                assert(col.drop_last()[i] == x);
                assert(col.drop_last().contains(x));
                assert(p.contains(x));
                if p.contains(col.last()) {
                    assert(keys.contains(x));
                } else {
                    let t = choose|t: int| 0 <= t < p.len() && p[t] == x;
                    assert(p.push(col.last())[t] == x);
                    assert(keys.contains(x));
                }
            } else {
                assert(x == col.last());
                if p.contains(x) {
                    assert(keys.contains(x));
                } else {
                    assert(p.push(col.last())[p.len() as int] == col.last());
                    assert(keys.contains(x));
                }
            }
        }
        if keys.contains(x) {
            if p.contains(col.last()) {
                assert(p.contains(x));
                assert(col.drop_last().contains(x));
                let i = choose|i: int| 0 <= i < col.drop_last().len() && col.drop_last()[i] == x;
                assert(col[i] == x);
                assert(col.contains(x));
            } else {
                let t = choose|t: int| 0 <= t < keys.len() && keys[t] == x;
                if t < p.len() {
                    assert(p[t] == x);
                    assert(p.contains(x));
                    assert(col.drop_last().contains(x));
                    let i = choose|i: int| 0 <= i < col.drop_last().len() && col.drop_last()[i]
                        == x;
                    assert(col[i] == x);
                    assert(col.contains(x));
                } else {
                    assert(x == col.last());
                    assert(col[col.len() - 1] == x);
                    assert(col.contains(x));
                }
            }
        }
    }
}

/// The key list never repeats a value.
pub proof fn lemma_keys_distinct(col: Seq<ValueModel>)
    ensures
        forall|i: int, j: int| 0 <= i < j < spec_keys(col).len() ==> spec_keys(col)[i]
            != spec_keys(col)[j],
    decreases col.len(),
{
    if col.len() > 0 {
        lemma_keys_distinct(col.drop_last());
        let p = spec_keys(col.drop_last());
        if !p.contains(col.last()) {
            assert forall|i: int, j: int| 0 <= i < j < spec_keys(col).len() implies spec_keys(
                col,
            )[i] != spec_keys(col)[j] by {
                if j == p.len() {
                    assert(spec_keys(col)[j] == col.last());
                    assert(spec_keys(col)[i] == p[i]);
                    if p[i] == col.last() {
                        assert(p.contains(col.last()));
                    }
                }
            }
        }
    }
}

/// Every bucket row is a real row carrying the bucket's key.
pub proof fn lemma_bucket_rows_props(col: Seq<ValueModel>, k: ValueModel)
    requires
        col.len() <= usize::MAX,
    ensures
        forall|t: int| 0 <= t < spec_bucket_rows(col, k).len() ==> spec_bucket_rows(col, k)[t]
            < col.len() && col[spec_bucket_rows(col, k)[t] as int] == k,
    decreases col.len(),
{
    if col.len() > 0 {
        lemma_bucket_rows_props(col.drop_last(), k);
        assert forall|t: int| 0 <= t < spec_bucket_rows(col, k).len() implies spec_bucket_rows(
            col,
            k,
        )[t] < col.len() && col[spec_bucket_rows(col, k)[t] as int] == k by {
            let p = spec_bucket_rows(col.drop_last(), k);
            if t < p.len() {
                assert(spec_bucket_rows(col, k)[t] == p[t]);
                assert(col.drop_last()[p[t] as int] == col[p[t] as int]);
            } else {
                assert(col.last() == k);
                assert(spec_bucket_rows(col, k)[t] == (col.len() - 1) as usize);
                assert(col[col.len() - 1] == k);
            }
        }
    }
}

/// A value that occurs nowhere in the column has an empty bucket.
pub proof fn lemma_bucket_rows_empty(col: Seq<ValueModel>, k: ValueModel)
    requires
        !col.contains(k),
    ensures
        spec_bucket_rows(col, k) == Seq::<usize>::empty(),
    decreases col.len(),
{
    if col.len() > 0 {
        if col.last() == k {
            assert(col[col.len() - 1] == k);
        }
        assert forall|i: int| 0 <= i < col.len() - 1 implies col.drop_last()[i] != k by {
            assert(col.drop_last()[i] == col[i]);
        }
        lemma_bucket_rows_empty(col.drop_last(), k);
    }
}

/// A value that occurs in the column has a non-empty bucket.
pub proof fn lemma_bucket_rows_nonempty(col: Seq<ValueModel>, k: ValueModel)
    requires
        col.contains(k),
    ensures
        spec_bucket_rows(col, k).len() > 0,
    decreases col.len(),
{
    if col.len() > 0 && col.last() != k {
        let i = choose|i: int| 0 <= i < col.len() && col[i] == k;
        assert(col.drop_last()[i] == k);
        assert(col.drop_last().contains(k));
        lemma_bucket_rows_nonempty(col.drop_last(), k);
    }
}

/// The models of a bucket list: each bucket as its key's model and its
/// row list.
pub open spec fn bucket_views(b: Seq<(DataTypes, Vec<usize>)>) -> Seq<(ValueModel, Seq<usize>)> {
    Seq::new(b.len(), |i: int| (b[i].0@, b[i].1@))
}

/// Partitions one column's rows by cell value.
pub fn partition_column(col: &Vec<DataTypes>) -> (r: Vec<(DataTypes, Vec<usize>)>)
    ensures
        bucket_views(r@) == spec_partition(vals(col@)),
{
    let ghost s = vals(col@);
    let n = col.len();
    let mut buckets: Vec<(DataTypes, Vec<usize>)> = Vec::new();
    let mut row: usize = 0;
    while row < n
        invariant
            0 <= row <= n,
            n == col@.len(),
            s == vals(col@),
            s.len() == n,
            bucket_views(buckets@) == spec_partition(s.take(row as int)),
        decreases n - row,
    {
        let ghost pre = s.take(row as int);
        let ghost pre2 = s.take(row + 1);
        proof {
            assert(pre2.drop_last() =~= pre);
            assert(pre2.last() == s[row as int]);
            lemma_keys_distinct(pre);
            lemma_keys_contains(pre, s[row as int]);
        }
        let m = buckets.len();
        let mut bi: usize = 0;
        let mut idx: usize = m;
        while bi < m
            invariant
                0 <= bi <= m,
                m == buckets@.len(),
                row < n == col@.len(),
                s == vals(col@),
                s.len() == n,
                idx <= m,
                idx == m ==> (forall|t: int| 0 <= t < bi ==> (#[trigger] buckets@[t]).0@ != s[
                    row as int
                ]),
                idx < m ==> buckets@[idx as int].0@ == s[row as int],
            decreases m - bi,
        {
            if idx == m && value_eq(&buckets[bi].0, &col[row]) {
                idx = bi;
            }
            bi = bi + 1;
        }
        let ghost b0 = buckets@;
        if idx < m {
            // An existing bucket carries this row's value: append the row.
            proof {
                assert(b0.len() == m);
                assert(bucket_views(b0).len() == b0.len());
                assert(spec_partition(pre).len() == spec_keys(pre).len());
                assert(idx < spec_keys(pre).len());
                assert(bucket_views(b0)[idx as int] == spec_partition(pre)[idx as int]);
                assert(bucket_views(b0)[idx as int].0 == b0[idx as int].0@);
                assert(spec_partition(pre)[idx as int].0 == spec_keys(pre)[idx as int]);
                assert(spec_keys(pre)[idx as int] == s[row as int]);
                assert(spec_keys(pre).contains(s[row as int]));
                b0.remove_ensures(idx as int);
            }
            let (key, mut rows) = buckets.remove(idx);
            rows.push(row);
            buckets.insert(idx, (key, rows));
            proof {
                let keys = spec_keys(pre);
                assert(spec_keys(pre2) == keys);
                b0.remove(idx as int).insert_ensures(idx as int, buckets@[idx as int]);
                assert(buckets@.len() == keys.len());
                assert forall|i: int| 0 <= i < keys.len() implies buckets@[i].0@
                    == spec_partition(pre2)[i].0 && buckets@[i].1@ =~= spec_partition(
                    pre2,
                )[i].1 by {
                    assert(spec_partition(pre2)[i].0 == keys[i]);
                    assert(spec_bucket_rows(pre2, keys[i]) == if pre2.last() == keys[i] {
                        spec_bucket_rows(pre, keys[i]).push(row)
                    } else {
                        spec_bucket_rows(pre, keys[i])
                    });
                    if i == idx {
                        assert(buckets@[i].0 == b0[i].0);
                        assert(buckets@[i].1@ =~= b0[i].1@.push(row));
                        assert(bucket_views(b0)[i].1 == spec_partition(pre)[i].1);
                    } else {
                        assert(keys[i] != keys[idx as int]);
                        assert(buckets@[i] == b0[i]);
                        assert(bucket_views(b0)[i] == spec_partition(pre)[i]);
                    }
                }
                assert forall|i: int| 0 <= i < buckets@.len() implies bucket_views(buckets@)[i]
                    == spec_partition(pre2)[i] by {
                    assert(bucket_views(buckets@)[i] == (buckets@[i].0@, buckets@[i].1@));
                }
                assert(bucket_views(buckets@) =~= spec_partition(pre2));
            }
        } else {
            // A value seen for the first time opens a new bucket.
            let mut rows: Vec<usize> = Vec::new();
            rows.push(row);
            buckets.push((clone_value(&col[row]), rows));
            proof {
                let keys = spec_keys(pre);
                assert(bucket_views(b0).len() == b0.len());
                assert(spec_partition(pre).len() == keys.len());
                assert(keys.len() == m);
                assert(buckets@.len() == m + 1);
                assert forall|t: int| 0 <= t < keys.len() implies keys[t] != s[row as int] by {
                    assert(bucket_views(b0)[t] == spec_partition(pre)[t]);
                    assert(bucket_views(b0)[t].0 == b0[t].0@);
                    assert(spec_partition(pre)[t].0 == keys[t]);
                    assert(b0[t].0@ != s[row as int]);
                }
                assert(!keys.contains(s[row as int]));
                assert(spec_keys(pre2) == keys.push(s[row as int]));
                assert(!pre.contains(s[row as int]));
                lemma_bucket_rows_empty(pre, s[row as int]);
                assert forall|i: int| 0 <= i < keys.len() + 1 implies bucket_views(buckets@)[i]
                    == spec_partition(pre2)[i] by {
                    assert(bucket_views(buckets@)[i] == (buckets@[i].0@, buckets@[i].1@));
                    assert(spec_bucket_rows(pre2, spec_keys(pre2)[i]) == if pre2.last()
                        == spec_keys(pre2)[i] {
                        spec_bucket_rows(pre, spec_keys(pre2)[i]).push(row)
                    } else {
                        spec_bucket_rows(pre, spec_keys(pre2)[i])
                    });
                    if i < keys.len() {
                        assert(buckets@[i] == b0[i]);
                        assert(bucket_views(b0)[i] == spec_partition(pre)[i]);
                        assert(spec_keys(pre2)[i] == keys[i]);
                    } else {
                        assert(spec_keys(pre2)[i] == s[row as int]);
                        assert(buckets@[i].1@ =~= Seq::<usize>::empty().push(row));
                        assert(buckets@[i].0@ == s[row as int]);
                    }
                }
                assert(bucket_views(buckets@) =~= spec_partition(pre2));
            }
        }
        row = row + 1;
    }
    proof {
        assert(s.take(n as int) =~= s);
    }
    buckets
}

/// The cells of `col` at the given rows, in order.
pub open spec fn spec_select(col: Seq<ValueModel>, rows: Seq<usize>) -> Seq<ValueModel> {
    Seq::new(rows.len(), |i: int| col[rows[i] as int])
}

fn materialize(col: &Vec<DataTypes>, rows: &Vec<usize>) -> (r: Vec<DataTypes>)
    requires
        forall|t: int| 0 <= t < rows@.len() ==> #[trigger] rows@[t] < col@.len(),
    ensures
        vals(r@) == spec_select(vals(col@), rows@),
        r@.len() == rows@.len(),
{
    let n = rows.len();
    let mut out: Vec<DataTypes> = Vec::new();
    let mut t: usize = 0;
    while t < n
        invariant
            0 <= t <= n,
            n == rows@.len(),
            forall|q: int| 0 <= q < n ==> #[trigger] rows@[q] < col@.len(),
            out@.len() == t,
            forall|q: int| 0 <= q < t ==> #[trigger] out@[q]@ == vals(col@)[rows@[q] as int],
        decreases n - t,
    {
        out.push(clone_value(&col[rows[t]]));
        t = t + 1;
    }
    proof {
        assert(vals(out@) =~= spec_select(vals(col@), rows@));
    }
    out
}

/// An index over a table: for each selected key column, independently,
/// the partition of the table's rows by that column's cell values.
pub struct Group<'a> {
    df: &'a DataFrame,
    column_indices: Vec<usize>,
    indices: Vec<Vec<(DataTypes, Vec<usize>)>>,
}

impl<'a> Group<'a> {
    /// The borrowed table.
    pub closed spec fn spec_df(&self) -> DataFrame {
        *self.df
    }

    /// The selected key-column indices, in selection order.
    pub closed spec fn spec_selected(&self) -> Seq<int> {
        self.column_indices@.map_values(|u: usize| u as int)
    }

    /// The per-key-column partitions.
    pub closed spec fn spec_partitions(&self) -> Seq<Seq<(ValueModel, Seq<usize>)>> {
        self.indices@.map_values(|b: Vec<(DataTypes, Vec<usize>)>| bucket_views(b@))
    }

    /// The key column selected at position `g`.
    pub open spec fn spec_key_col(&self, g: int) -> Seq<ValueModel> {
        self.spec_df().spec_columns()[self.spec_selected()[g]]
    }

    /// The sniffed kind of the key column selected at position `g`.
    pub open spec fn spec_kind(&self, g: int) -> ColumnKind {
        spec_kind_of(self.spec_key_col(g)[0])
    }

    /// The group's invariant: a well-formed table, one partition per
    /// selected column, each partition exactly the by-value partition of
    /// its column's rows.
    pub open spec fn wf(&self) -> bool {
        &&& self.spec_df().wf()
        &&& self.spec_selected().len() == self.spec_partitions().len()
        &&& (forall|g: int| 0 <= g < self.spec_selected().len() ==> 0 <= #[trigger] self.spec_selected()[g] < self.spec_df().spec_columns().len())
        &&& (forall|g: int| 0 <= g < self.spec_selected().len() ==> #[trigger] self.spec_partitions()[g] == spec_partition(self.spec_key_col(g)))
    }

    /// Builds the index: resolves each name to its first-matching column
    /// and partitions that column's rows by cell value.
    pub fn new(df: &'a DataFrame, column_names: Vec<&str>) -> (r: Group<'a>)
        requires
            df.wf(),
            forall|g: int| 0 <= g < column_names@.len() ==> spec_has_label(
                df.spec_labels(),
                #[trigger] column_names@[g]@,
            ),
        ensures
            r.wf(),
            r.spec_df() == *df,
            r.spec_selected() == Seq::new(
                column_names@.len(),
                |g: int| spec_col_index(df.spec_labels(), column_names@[g]@),
            ),
    {
        let n = column_names.len();
        let mut column_idxs: Vec<usize> = Vec::new();
        let mut i: usize = 0;
        while i < n
            invariant
                0 <= i <= n,
                n == column_names@.len(),
                df.wf(),
                forall|g: int| 0 <= g < n ==> spec_has_label(
                    df.spec_labels(),
                    #[trigger] column_names@[g]@,
                ),
                column_idxs@.len() == i,
                forall|g: int| 0 <= g < i ==> #[trigger] column_idxs@[g] == spec_col_index(
                    df.spec_labels(),
                    column_names@[g]@,
                ),
                forall|g: int| 0 <= g < i ==> #[trigger] column_idxs@[g]
                    < df.spec_columns().len(),
            decreases n - i,
        {
            proof {
                lemma_col_index_props(df.spec_labels(), column_names@[i as int]@);
            }
            let idx = df.get_column_index(column_names[i]);
            column_idxs.push(idx);
            i = i + 1;
        }
        let mut grp_indices: Vec<Vec<(DataTypes, Vec<usize>)>> = Vec::new();
        let mut g: usize = 0;
        while g < n
            invariant
                0 <= g <= n,
                df.wf(),
                column_idxs@.len() == n,
                forall|q: int| 0 <= q < n ==> #[trigger] column_idxs@[q]
                    < df.spec_columns().len(),
                grp_indices@.len() == g,
                forall|q: int| 0 <= q < g ==> #[trigger] bucket_views(grp_indices@[q]@)
                    == spec_partition(df.spec_columns()[column_idxs@[q] as int]),
            decreases n - g,
        {
            let b = partition_column(df.column_at(column_idxs[g]));
            grp_indices.push(b);
            g = g + 1;
        }
        let r = Group { df, column_indices: column_idxs, indices: grp_indices };
        proof {
            assert(r.spec_selected() =~= Seq::new(
                column_names@.len(),
                |g: int| spec_col_index(df.spec_labels(), column_names@[g]@),
            ));
            assert forall|q: int| 0 <= q < r.spec_selected().len() implies #[trigger] r
                .spec_partitions()[q] == spec_partition(r.spec_key_col(q)) by {
                assert(r.spec_partitions()[q] == bucket_views(r.indices@[q]@));
                assert(r.spec_selected()[q] == r.column_indices@[q] as int);
            }
        }
        r
    }

    /// The selected columns' labels, in selection order.
    pub fn fields(&self) -> (r: Vec<String>)
        requires
            self.wf(),
        ensures
            r@.len() == self.spec_selected().len(),
            forall|g: int| 0 <= g < r@.len() ==> #[trigger] r@[g]@ == self.spec_df().spec_labels()[
                self.spec_selected()[g]
            ],
    {
        let n = self.column_indices.len();
        let mut out: Vec<String> = Vec::new();
        let mut g: usize = 0;
        while g < n
            invariant
                0 <= g <= n,
                self.wf(),
                n == self.spec_selected().len(),
                out@.len() == g,
                forall|q: int| 0 <= q < g ==> #[trigger] out@[q]@ == self.spec_df().spec_labels()[
                    self.spec_selected()[q]
                ],
            decreases n - g,
        {
            proof {
                assert(self.spec_selected()[g as int] == self.column_indices@[g as int] as int);
            }
            let lbl = self.df.label_at(self.column_indices[g]);
            out.push(lbl.clone());
            g = g + 1;
        }
        out
    }

    /// Per selected column, per distinct value (in first-occurrence
    /// order): the value's text reading and its row count.
    pub fn size(&self) -> (r: Vec<(String, Vec<(String, usize)>)>)
        requires
            self.wf(),
        ensures
            r@.len() == self.spec_selected().len(),
            forall|g: int| 0 <= g < r@.len() ==> #[trigger] r@[g].0@ == self.spec_df()
                .spec_labels()[self.spec_selected()[g]],
            forall|g: int| 0 <= g < r@.len() ==> #[trigger] r@[g].1@.len()
                == self.spec_partitions()[g].len(),
            forall|g: int, t: int| 0 <= g < r@.len() && 0 <= t < r@[g].1@.len() ==> (
            #[trigger] r@[g].1@[t]).0@ == spec_svalue(self.spec_partitions()[g][t].0) && r@[g].1@[
                t
            ].1 == self.spec_partitions()[g][t].1.len(),
    {
        let n = self.column_indices.len();
        let mut out: Vec<(String, Vec<(String, usize)>)> = Vec::new();
        let mut g: usize = 0;
        while g < n
            invariant
                0 <= g <= n,
                self.wf(),
                n == self.spec_selected().len(),
                out@.len() == g,
                forall|q: int| 0 <= q < g ==> #[trigger] out@[q].0@ == self.spec_df()
                    .spec_labels()[self.spec_selected()[q]],
                forall|q: int| 0 <= q < g ==> #[trigger] out@[q].1@.len()
                    == self.spec_partitions()[q].len(),
                forall|q: int, t: int| 0 <= q < g && 0 <= t < out@[q].1@.len() ==> (
                #[trigger] out@[q].1@[t]).0@ == spec_svalue(self.spec_partitions()[q][t].0)
                    && out@[q].1@[t].1 == self.spec_partitions()[q][t].1.len(),
            decreases n - g,
        {
            proof {
                assert(self.spec_selected()[g as int] == self.column_indices@[g as int] as int);
            }
            let lbl = self.df.label_at(self.column_indices[g]);
            let buckets = &self.indices[g];
            let m = buckets.len();
            proof {
                assert(self.spec_partitions()[g as int] == bucket_views(self.indices@[g as int]@));
            }
            let mut row: Vec<(String, usize)> = Vec::new();
            let mut t: usize = 0;
            while t < m
                invariant
                    0 <= t <= m,
                    m == buckets@.len(),
                    self.spec_partitions()[g as int] == bucket_views(buckets@),
                    row@.len() == t,
                    forall|q: int| 0 <= q < t ==> (#[trigger] row@[q]).0@ == spec_svalue(
                        bucket_views(buckets@)[q].0,
                    ) && row@[q].1 == bucket_views(buckets@)[q].1.len(),
                decreases m - t,
            {
                let key_text = buckets[t].0.svalue();
                let count = buckets[t].1.len();
                row.push((key_text, count));
                proof {
                    assert(bucket_views(buckets@)[t as int]
                        == (buckets@[t as int].0@, buckets@[t as int].1@));
                }
                t = t + 1;
            }
            out.push((lbl.clone(), row));
            g = g + 1;
        }
        out
    }

    /// The materialized sub-columns of the key column at selection
    /// position `g`: one per bucket, each non-empty.
    fn sub_columns(&self, g: usize) -> (r: Vec<Vec<DataTypes>>)
        requires
            self.wf(),
            (g as int) < self.spec_selected().len(),
        ensures
            r@.len() == self.spec_partitions()[g as int].len(),
            forall|t: int| 0 <= t < r@.len() ==> #[trigger] vals(r@[t]@) == spec_select(
                self.spec_key_col(g as int),
                self.spec_partitions()[g as int][t].1,
            ),
            forall|t: int| 0 <= t < r@.len() ==> #[trigger] r@[t]@.len() > 0,
    {
        proof {
            assert(self.spec_selected()[g as int] == self.column_indices@[g as int] as int);
        }
        let ci = self.column_indices[g];
        let col = self.df.column_at(ci);
        // binding the length pins it (and so the column) under usize::MAX
        let _col_len = col.len();
        let buckets = &self.indices[g];
        let m = buckets.len();
        let ghost colseq = self.spec_key_col(g as int);
        proof {
            assert(self.spec_partitions()[g as int] == bucket_views(self.indices@[g as int]@));
            assert(vals(col@) == colseq);
            assert(colseq.len() == col@.len());
            assert(colseq.len() <= usize::MAX);
            lemma_keys_distinct(colseq);
        }
        let mut out: Vec<Vec<DataTypes>> = Vec::new();
        let mut t: usize = 0;
        while t < m
            invariant
                0 <= t <= m,
                self.wf(),
                (g as int) < self.spec_selected().len(),
                m == buckets@.len(),
                buckets@ == self.indices@[g as int]@,
                self.spec_partitions()[g as int] == bucket_views(buckets@),
                bucket_views(buckets@) == spec_partition(colseq),
                colseq == self.spec_key_col(g as int),
                vals(col@) == colseq,
                col@.len() == colseq.len(),
                colseq.len() <= usize::MAX,
                out@.len() == t,
                forall|q: int| 0 <= q < t ==> #[trigger] vals(out@[q]@) == spec_select(
                    colseq,
                    bucket_views(buckets@)[q].1,
                ),
                forall|q: int| 0 <= q < t ==> #[trigger] out@[q]@.len() > 0,
            decreases m - t,
        {
            let rows = &buckets[t].1;
            proof {
                let keys = spec_keys(colseq);
                assert(bucket_views(buckets@).len() == buckets@.len());
                assert(spec_partition(colseq).len() == keys.len());
                assert(keys.len() == m);
                assert(bucket_views(buckets@)[t as int]
                    == (buckets@[t as int].0@, buckets@[t as int].1@));
                assert(bucket_views(buckets@)[t as int] == spec_partition(colseq)[t as int]);
                assert(spec_partition(colseq)[t as int].1 == spec_bucket_rows(colseq, keys[t as int]));
                assert(rows@ == spec_bucket_rows(colseq, keys[t as int]));
                lemma_bucket_rows_props(colseq, keys[t as int]);
                assert(keys.contains(keys[t as int]));
                lemma_keys_contains(colseq, keys[t as int]);
                lemma_bucket_rows_nonempty(colseq, keys[t as int]);
            }
            let sub = materialize(col, rows);
            out.push(sub);
            t = t + 1;
        }
        out
    }

    /// Per selected column, per bucket (in first-occurrence order): the
    /// mean of the bucket's cells in that column.
    pub fn mean(&self) -> (r: Vec<Vec<DataTypes>>)
        requires
            self.wf(),
            forall|g: int| 0 <= g < self.spec_selected().len() ==> #[trigger] self.spec_key_col(
                g,
            ).len() > 0,
        ensures
            r@.len() == self.spec_selected().len(),
            forall|g: int| 0 <= g < r@.len() ==> #[trigger] r@[g]@.len()
                == self.spec_partitions()[g].len(),
            forall|g: int, t: int| 0 <= g < r@.len() && 0 <= t < r@[g]@.len() ==> (
            #[trigger] r@[g]@[t])@ == spec_col_mean(
                self.spec_kind(g),
                spec_select(self.spec_key_col(g), self.spec_partitions()[g][t].1),
            ),
    {
        let n = self.column_indices.len();
        let mut out: Vec<Vec<DataTypes>> = Vec::new();
        let mut g: usize = 0;
        while g < n
            invariant
                0 <= g <= n,
                self.wf(),
                n == self.spec_selected().len(),
                forall|q: int| 0 <= q < n ==> #[trigger] self.spec_key_col(q).len() > 0,
                out@.len() == g,
                forall|q: int| 0 <= q < g ==> #[trigger] out@[q]@.len()
                    == self.spec_partitions()[q].len(),
                forall|q: int, t: int| 0 <= q < g && 0 <= t < out@[q]@.len() ==> (
                #[trigger] out@[q]@[t])@ == spec_col_mean(
                    self.spec_kind(q),
                    spec_select(self.spec_key_col(q), self.spec_partitions()[q][t].1),
                ),
            decreases n - g,
        {
            proof {
                assert(self.spec_selected()[g as int] == self.column_indices@[g as int] as int);
            }
            let ci = self.column_indices[g];
            let col = self.df.column_at(ci);
            let k = kind_of(&col[0]);
            proof {
                assert(col@[0]@ == self.spec_key_col(g as int)[0]);
            }
            let subs = self.sub_columns(g);
            let m = subs.len();
            let mut row_out: Vec<DataTypes> = Vec::new();
            let mut t: usize = 0;
            while t < m
                invariant
                    0 <= t <= m,
                    self.wf(),
                    (g as int) < self.spec_selected().len(),
                    m == subs@.len(),
                    m == self.spec_partitions()[g as int].len(),
                    k == self.spec_kind(g as int),
                    forall|q: int| 0 <= q < m ==> #[trigger] vals(subs@[q]@) == spec_select(
                        self.spec_key_col(g as int),
                        self.spec_partitions()[g as int][q].1,
                    ),
                    forall|q: int| 0 <= q < m ==> #[trigger] subs@[q]@.len() > 0,
                    row_out@.len() == t,
                    forall|q: int| 0 <= q < t ==> (#[trigger] row_out@[q])@ == spec_col_mean(
                        self.spec_kind(g as int),
                        spec_select(
                            self.spec_key_col(g as int),
                            self.spec_partitions()[g as int][q].1,
                        ),
                    ),
                decreases m - t,
            {
                let v = col_mean(k, &subs[t]);
                row_out.push(v);
                t = t + 1;
            }
            out.push(row_out);
            g = g + 1;
        }
        out
    }


    /// Per selected column, per bucket: the sample deviation of the
    /// bucket's cells (full-count divisor, as everywhere).
    pub fn stddev(&self) -> (r: Vec<Vec<DataTypes>>)
        requires
            self.wf(),
            forall|g: int| 0 <= g < self.spec_selected().len() ==> #[trigger] self.spec_key_col(
                g,
            ).len() > 0,
        ensures
            r@.len() == self.spec_selected().len(),
            forall|g: int| 0 <= g < r@.len() ==> #[trigger] r@[g]@.len()
                == self.spec_partitions()[g].len(),
            forall|g: int, t: int| 0 <= g < r@.len() && 0 <= t < r@[g]@.len() ==> (
            #[trigger] r@[g]@[t])@ == spec_col_stddev(
                self.spec_kind(g),
                spec_select(self.spec_key_col(g), self.spec_partitions()[g][t].1),
            ),
    {
        let n = self.column_indices.len();
        let mut out: Vec<Vec<DataTypes>> = Vec::new();
        let mut g: usize = 0;
        while g < n
            invariant
                0 <= g <= n,
                self.wf(),
                n == self.spec_selected().len(),
                forall|q: int| 0 <= q < n ==> #[trigger] self.spec_key_col(q).len() > 0,
                out@.len() == g,
                forall|q: int| 0 <= q < g ==> #[trigger] out@[q]@.len()
                    == self.spec_partitions()[q].len(),
                forall|q: int, t: int| 0 <= q < g && 0 <= t < out@[q]@.len() ==> (
                #[trigger] out@[q]@[t])@ == spec_col_stddev(
                    self.spec_kind(q),
                    spec_select(self.spec_key_col(q), self.spec_partitions()[q][t].1),
                ),
            decreases n - g,
        {
            proof {
                assert(self.spec_selected()[g as int] == self.column_indices@[g as int] as int);
            }
            let ci = self.column_indices[g];
            let col = self.df.column_at(ci);
            let k = kind_of(&col[0]);
            proof {
                assert(col@[0]@ == self.spec_key_col(g as int)[0]);
            }
            let subs = self.sub_columns(g);
            let m = subs.len();
            let mut row_out: Vec<DataTypes> = Vec::new();
            let mut t: usize = 0;
            while t < m
                invariant
                    0 <= t <= m,
                    self.wf(),
                    (g as int) < self.spec_selected().len(),
                    m == subs@.len(),
                    m == self.spec_partitions()[g as int].len(),
                    k == self.spec_kind(g as int),
                    forall|q: int| 0 <= q < m ==> #[trigger] vals(subs@[q]@) == spec_select(
                        self.spec_key_col(g as int),
                        self.spec_partitions()[g as int][q].1,
                    ),
                    forall|q: int| 0 <= q < m ==> #[trigger] subs@[q]@.len() > 0,
                    row_out@.len() == t,
                    forall|q: int| 0 <= q < t ==> (#[trigger] row_out@[q])@ == spec_col_stddev(
                        self.spec_kind(g as int),
                        spec_select(
                            self.spec_key_col(g as int),
                            self.spec_partitions()[g as int][q].1,
                        ),
                    ),
                decreases m - t,
            {
                let v = col_stddev(k, &subs[t]);
                row_out.push(v);
                t = t + 1;
            }
            out.push(row_out);
            g = g + 1;
        }
        out
    }


    /// Per selected column, per bucket: the population deviation of the
    /// bucket's cells.
    pub fn pstddev(&self) -> (r: Vec<Vec<DataTypes>>)
        requires
            self.wf(),
            forall|g: int| 0 <= g < self.spec_selected().len() ==> #[trigger] self.spec_key_col(
                g,
            ).len() > 0,
        ensures
            r@.len() == self.spec_selected().len(),
            forall|g: int| 0 <= g < r@.len() ==> #[trigger] r@[g]@.len()
                == self.spec_partitions()[g].len(),
            forall|g: int, t: int| 0 <= g < r@.len() && 0 <= t < r@[g]@.len() ==> (
            #[trigger] r@[g]@[t])@ == spec_col_pstddev(
                self.spec_kind(g),
                spec_select(self.spec_key_col(g), self.spec_partitions()[g][t].1),
            ),
    {
        let n = self.column_indices.len();
        let mut out: Vec<Vec<DataTypes>> = Vec::new();
        let mut g: usize = 0;
        while g < n
            invariant
                0 <= g <= n,
                self.wf(),
                n == self.spec_selected().len(),
                forall|q: int| 0 <= q < n ==> #[trigger] self.spec_key_col(q).len() > 0,
                out@.len() == g,
                forall|q: int| 0 <= q < g ==> #[trigger] out@[q]@.len()
                    == self.spec_partitions()[q].len(),
                forall|q: int, t: int| 0 <= q < g && 0 <= t < out@[q]@.len() ==> (
                #[trigger] out@[q]@[t])@ == spec_col_pstddev(
                    self.spec_kind(q),
                    spec_select(self.spec_key_col(q), self.spec_partitions()[q][t].1),
                ),
            decreases n - g,
        {
            proof {
                assert(self.spec_selected()[g as int] == self.column_indices@[g as int] as int);
            }
            let ci = self.column_indices[g];
            let col = self.df.column_at(ci);
            let k = kind_of(&col[0]);
            proof {
                assert(col@[0]@ == self.spec_key_col(g as int)[0]);
            }
            let subs = self.sub_columns(g);
            let m = subs.len();
            let mut row_out: Vec<DataTypes> = Vec::new();
            let mut t: usize = 0;
            while t < m
                invariant
                    0 <= t <= m,
                    self.wf(),
                    (g as int) < self.spec_selected().len(),
                    m == subs@.len(),
                    m == self.spec_partitions()[g as int].len(),
                    k == self.spec_kind(g as int),
                    forall|q: int| 0 <= q < m ==> #[trigger] vals(subs@[q]@) == spec_select(
                        self.spec_key_col(g as int),
                        self.spec_partitions()[g as int][q].1,
                    ),
                    forall|q: int| 0 <= q < m ==> #[trigger] subs@[q]@.len() > 0,
                    row_out@.len() == t,
                    forall|q: int| 0 <= q < t ==> (#[trigger] row_out@[q])@ == spec_col_pstddev(
                        self.spec_kind(g as int),
                        spec_select(
                            self.spec_key_col(g as int),
                            self.spec_partitions()[g as int][q].1,
                        ),
                    ),
                decreases m - t,
            {
                let v = col_pstddev(k, &subs[t]);
                row_out.push(v);
                t = t + 1;
            }
            out.push(row_out);
            g = g + 1;
        }
        out
    }


    /// Per selected column, per bucket: the variance of the bucket's
    /// cells.
    pub fn variance(&self) -> (r: Vec<Vec<DataTypes>>)
        requires
            self.wf(),
            forall|g: int| 0 <= g < self.spec_selected().len() ==> #[trigger] self.spec_key_col(
                g,
            ).len() > 0,
        ensures
            r@.len() == self.spec_selected().len(),
            forall|g: int| 0 <= g < r@.len() ==> #[trigger] r@[g]@.len()
                == self.spec_partitions()[g].len(),
            forall|g: int, t: int| 0 <= g < r@.len() && 0 <= t < r@[g]@.len() ==> (
            #[trigger] r@[g]@[t])@ == spec_col_variance(
                self.spec_kind(g),
                spec_select(self.spec_key_col(g), self.spec_partitions()[g][t].1),
            ),
    {
        let n = self.column_indices.len();
        let mut out: Vec<Vec<DataTypes>> = Vec::new();
        let mut g: usize = 0;
        while g < n
            invariant
                0 <= g <= n,
                self.wf(),
                n == self.spec_selected().len(),
                forall|q: int| 0 <= q < n ==> #[trigger] self.spec_key_col(q).len() > 0,
                out@.len() == g,
                forall|q: int| 0 <= q < g ==> #[trigger] out@[q]@.len()
                    == self.spec_partitions()[q].len(),
                forall|q: int, t: int| 0 <= q < g && 0 <= t < out@[q]@.len() ==> (
                #[trigger] out@[q]@[t])@ == spec_col_variance(
                    self.spec_kind(q),
                    spec_select(self.spec_key_col(q), self.spec_partitions()[q][t].1),
                ),
            decreases n - g,
        {
            proof {
                assert(self.spec_selected()[g as int] == self.column_indices@[g as int] as int);
            }
            let ci = self.column_indices[g];
            let col = self.df.column_at(ci);
            let k = kind_of(&col[0]);
            proof {
                assert(col@[0]@ == self.spec_key_col(g as int)[0]);
            }
            let subs = self.sub_columns(g);
            let m = subs.len();
            let mut row_out: Vec<DataTypes> = Vec::new();
            let mut t: usize = 0;
            while t < m
                invariant
                    0 <= t <= m,
                    self.wf(),
                    (g as int) < self.spec_selected().len(),
                    m == subs@.len(),
                    m == self.spec_partitions()[g as int].len(),
                    k == self.spec_kind(g as int),
                    forall|q: int| 0 <= q < m ==> #[trigger] vals(subs@[q]@) == spec_select(
                        self.spec_key_col(g as int),
                        self.spec_partitions()[g as int][q].1,
                    ),
                    forall|q: int| 0 <= q < m ==> #[trigger] subs@[q]@.len() > 0,
                    row_out@.len() == t,
                    forall|q: int| 0 <= q < t ==> (#[trigger] row_out@[q])@ == spec_col_variance(
                        self.spec_kind(g as int),
                        spec_select(
                            self.spec_key_col(g as int),
                            self.spec_partitions()[g as int][q].1,
                        ),
                    ),
                decreases m - t,
            {
                let v = col_variance(k, &subs[t]);
                row_out.push(v);
                t = t + 1;
            }
            out.push(row_out);
            g = g + 1;
        }
        out
    }

    /// Per selected column, per bucket: the simple rolling mean of the
    /// bucket's cells for window `window`.
    pub fn simple_rolling_mean(&self, window: usize) -> (r: Vec<Vec<Vec<DataTypes>>>)
        requires
            self.wf(),
            forall|g: int| 0 <= g < self.spec_selected().len() ==> #[trigger] self.spec_key_col(
                g,
            ).len() > 0,
        ensures
            r@.len() == self.spec_selected().len(),
            forall|g: int| 0 <= g < r@.len() ==> #[trigger] r@[g]@.len()
                == self.spec_partitions()[g].len(),
            forall|g: int, t: int| 0 <= g < r@.len() && 0 <= t < r@[g]@.len() ==> vals(
                (#[trigger] r@[g]@[t])@,
            ) == spec_col_rolling_mean(
                self.spec_kind(g),
                spec_select(self.spec_key_col(g), self.spec_partitions()[g][t].1),
                window as u64,
            ),
    {
        let n = self.column_indices.len();
        let mut out: Vec<Vec<Vec<DataTypes>>> = Vec::new();
        let mut g: usize = 0;
        while g < n
            invariant
                0 <= g <= n,
                self.wf(),
                n == self.spec_selected().len(),
                forall|q: int| 0 <= q < n ==> #[trigger] self.spec_key_col(q).len() > 0,
                out@.len() == g,
                forall|q: int| 0 <= q < g ==> #[trigger] out@[q]@.len()
                    == self.spec_partitions()[q].len(),
                forall|q: int, t: int| 0 <= q < g && 0 <= t < out@[q]@.len() ==> vals(
                    (#[trigger] out@[q]@[t])@,
                ) == spec_col_rolling_mean(
                    self.spec_kind(q),
                    spec_select(self.spec_key_col(q), self.spec_partitions()[q][t].1),
                window as u64,
                ),
            decreases n - g,
        {
            proof {
                assert(self.spec_selected()[g as int] == self.column_indices@[g as int] as int);
            }
            let ci = self.column_indices[g];
            let col = self.df.column_at(ci);
            proof {
                assert(self.spec_key_col(g as int).len() > 0);
                assert(vals(col@) == self.spec_key_col(g as int));
                assert(col@.len() == vals(col@).len());
                assert(col@.len() > 0);
            }
            let k = kind_of(&col[0]);
            proof {
                assert(col@[0]@ == self.spec_key_col(g as int)[0]);
            }
            let subs = self.sub_columns(g);
            let m = subs.len();
            let mut row_out: Vec<Vec<DataTypes>> = Vec::new();
            let mut t: usize = 0;
            while t < m
                invariant
                    0 <= t <= m,
                    self.wf(),
                    (g as int) < self.spec_selected().len(),
                    m == subs@.len(),
                    m == self.spec_partitions()[g as int].len(),
                    k == self.spec_kind(g as int),
                    forall|q: int| 0 <= q < m ==> #[trigger] vals(subs@[q]@) == spec_select(
                        self.spec_key_col(g as int),
                        self.spec_partitions()[g as int][q].1,
                    ),
                    forall|q: int| 0 <= q < m ==> #[trigger] subs@[q]@.len() > 0,
                    row_out@.len() == t,
                    forall|q: int| 0 <= q < t ==> vals((#[trigger] row_out@[q])@) == spec_col_rolling_mean(
                        self.spec_kind(g as int),
                        spec_select(
                            self.spec_key_col(g as int),
                            self.spec_partitions()[g as int][q].1,
                        ),
                window as u64,
                    ),
                decreases m - t,
            {
                let v = col_rolling_mean(k, &subs[t], window);
                row_out.push(v);
                t = t + 1;
            }
            out.push(row_out);
            g = g + 1;
        }
        out
    }
    /// Per selected column, per bucket: the rolling deviation of the
    /// bucket's cells for window `window`.
    pub fn rolling_stddev(&self, window: usize) -> (r: Vec<Vec<Vec<DataTypes>>>)
        requires
            self.wf(),
            forall|g: int| 0 <= g < self.spec_selected().len() ==> #[trigger] self.spec_key_col(
                g,
            ).len() > 0,
            forall|g: int, t: int|
                0 <= g < self.spec_selected().len() && 0 <= t < self.spec_partitions()[g].len()
                    ==> spec_rolling_div_ok(
                    self.spec_kind(g),
                    (#[trigger] self.spec_partitions()[g][t]).1.len(),
                    window as u64,
                ),
        ensures
            r@.len() == self.spec_selected().len(),
            forall|g: int| 0 <= g < r@.len() ==> #[trigger] r@[g]@.len()
                == self.spec_partitions()[g].len(),
            forall|g: int, t: int| 0 <= g < r@.len() && 0 <= t < r@[g]@.len() ==> vals(
                (#[trigger] r@[g]@[t])@,
            ) == spec_col_rolling_stddev(
                self.spec_kind(g),
                spec_select(self.spec_key_col(g), self.spec_partitions()[g][t].1),
                window as u64,
            ),
    {
        let n = self.column_indices.len();
        let mut out: Vec<Vec<Vec<DataTypes>>> = Vec::new();
        let mut g: usize = 0;
        while g < n
            invariant
                0 <= g <= n,
                self.wf(),
                n == self.spec_selected().len(),
                forall|q: int| 0 <= q < n ==> #[trigger] self.spec_key_col(q).len() > 0,
                forall|q: int, t: int|
                    0 <= q < n && 0 <= t < self.spec_partitions()[q].len()
                        ==> spec_rolling_div_ok(
                        self.spec_kind(q),
                        (#[trigger] self.spec_partitions()[q][t]).1.len(),
                        window as u64,
                    ),
                out@.len() == g,
                forall|q: int| 0 <= q < g ==> #[trigger] out@[q]@.len()
                    == self.spec_partitions()[q].len(),
                forall|q: int, t: int| 0 <= q < g && 0 <= t < out@[q]@.len() ==> vals(
                    (#[trigger] out@[q]@[t])@,
                ) == spec_col_rolling_stddev(
                    self.spec_kind(q),
                    spec_select(self.spec_key_col(q), self.spec_partitions()[q][t].1),
                window as u64,
                ),
            decreases n - g,
        {
            proof {
                assert(self.spec_selected()[g as int] == self.column_indices@[g as int] as int);
            }
            let ci = self.column_indices[g];
            let col = self.df.column_at(ci);
            proof {
                assert(self.spec_key_col(g as int).len() > 0);
                assert(vals(col@) == self.spec_key_col(g as int));
                assert(col@.len() == vals(col@).len());
                assert(col@.len() > 0);
            }
            let k = kind_of(&col[0]);
            proof {
                assert(col@[0]@ == self.spec_key_col(g as int)[0]);
            }
            let subs = self.sub_columns(g);
            let m = subs.len();
            let mut row_out: Vec<Vec<DataTypes>> = Vec::new();
            let mut t: usize = 0;
            while t < m
                invariant
                    0 <= t <= m,
                    self.wf(),
                    (g as int) < self.spec_selected().len(),
                    m == subs@.len(),
                    m == self.spec_partitions()[g as int].len(),
                    k == self.spec_kind(g as int),
                    forall|t: int|
                        0 <= t < m ==> spec_rolling_div_ok(
                        self.spec_kind(g as int),
                        (#[trigger] self.spec_partitions()[g as int][t]).1.len(),
                        window as u64,
                    ),
                    forall|q: int| 0 <= q < m ==> #[trigger] vals(subs@[q]@) == spec_select(
                        self.spec_key_col(g as int),
                        self.spec_partitions()[g as int][q].1,
                    ),
                    forall|q: int| 0 <= q < m ==> #[trigger] subs@[q]@.len() > 0,
                    row_out@.len() == t,
                    forall|q: int| 0 <= q < t ==> vals((#[trigger] row_out@[q])@) == spec_col_rolling_stddev(
                        self.spec_kind(g as int),
                        spec_select(
                            self.spec_key_col(g as int),
                            self.spec_partitions()[g as int][q].1,
                        ),
                window as u64,
                    ),
                decreases m - t,
            {
                proof {
                    assert(vals(subs@[t as int]@).len()
                        == self.spec_partitions()[g as int][t as int].1.len());
                }
                let v = col_rolling_stddev(k, &subs[t], window);
                row_out.push(v);
                t = t + 1;
            }
            out.push(row_out);
            g = g + 1;
        }
        out
    }
    /// Per selected column, per bucket: the rolling variance of the
    /// bucket's cells for window `window`.
    pub fn rolling_variance(&self, window: usize) -> (r: Vec<Vec<Vec<DataTypes>>>)
        requires
            self.wf(),
            forall|g: int| 0 <= g < self.spec_selected().len() ==> #[trigger] self.spec_key_col(
                g,
            ).len() > 0,
            forall|g: int, t: int|
                0 <= g < self.spec_selected().len() && 0 <= t < self.spec_partitions()[g].len()
                    ==> spec_rolling_div_ok(
                    self.spec_kind(g),
                    (#[trigger] self.spec_partitions()[g][t]).1.len(),
                    window as u64,
                ),
        ensures
            r@.len() == self.spec_selected().len(),
            forall|g: int| 0 <= g < r@.len() ==> #[trigger] r@[g]@.len()
                == self.spec_partitions()[g].len(),
            forall|g: int, t: int| 0 <= g < r@.len() && 0 <= t < r@[g]@.len() ==> vals(
                (#[trigger] r@[g]@[t])@,
            ) == spec_col_rolling_variance(
                self.spec_kind(g),
                spec_select(self.spec_key_col(g), self.spec_partitions()[g][t].1),
                window as u64,
            ),
    {
        let n = self.column_indices.len();
        let mut out: Vec<Vec<Vec<DataTypes>>> = Vec::new();
        let mut g: usize = 0;
        while g < n
            invariant
                0 <= g <= n,
                self.wf(),
                n == self.spec_selected().len(),
                forall|q: int| 0 <= q < n ==> #[trigger] self.spec_key_col(q).len() > 0,
                forall|q: int, t: int|
                    0 <= q < n && 0 <= t < self.spec_partitions()[q].len()
                        ==> spec_rolling_div_ok(
                        self.spec_kind(q),
                        (#[trigger] self.spec_partitions()[q][t]).1.len(),
                        window as u64,
                    ),
                out@.len() == g,
                forall|q: int| 0 <= q < g ==> #[trigger] out@[q]@.len()
                    == self.spec_partitions()[q].len(),
                forall|q: int, t: int| 0 <= q < g && 0 <= t < out@[q]@.len() ==> vals(
                    (#[trigger] out@[q]@[t])@,
                ) == spec_col_rolling_variance(
                    self.spec_kind(q),
                    spec_select(self.spec_key_col(q), self.spec_partitions()[q][t].1),
                window as u64,
                ),
            decreases n - g,
        {
            proof {
                assert(self.spec_selected()[g as int] == self.column_indices@[g as int] as int);
            }
            let ci = self.column_indices[g];
            let col = self.df.column_at(ci);
            proof {
                assert(self.spec_key_col(g as int).len() > 0);
                assert(vals(col@) == self.spec_key_col(g as int));
                assert(col@.len() == vals(col@).len());
                assert(col@.len() > 0);
            }
            let k = kind_of(&col[0]);
            proof {
                assert(col@[0]@ == self.spec_key_col(g as int)[0]);
            }
            let subs = self.sub_columns(g);
            let m = subs.len();
            let mut row_out: Vec<Vec<DataTypes>> = Vec::new();
            let mut t: usize = 0;
            while t < m
                invariant
                    0 <= t <= m,
                    self.wf(),
                    (g as int) < self.spec_selected().len(),
                    m == subs@.len(),
                    m == self.spec_partitions()[g as int].len(),
                    k == self.spec_kind(g as int),
                    forall|t: int|
                        0 <= t < m ==> spec_rolling_div_ok(
                        self.spec_kind(g as int),
                        (#[trigger] self.spec_partitions()[g as int][t]).1.len(),
                        window as u64,
                    ),
                    forall|q: int| 0 <= q < m ==> #[trigger] vals(subs@[q]@) == spec_select(
                        self.spec_key_col(g as int),
                        self.spec_partitions()[g as int][q].1,
                    ),
                    forall|q: int| 0 <= q < m ==> #[trigger] subs@[q]@.len() > 0,
                    row_out@.len() == t,
                    forall|q: int| 0 <= q < t ==> vals((#[trigger] row_out@[q])@) == spec_col_rolling_variance(
                        self.spec_kind(g as int),
                        spec_select(
                            self.spec_key_col(g as int),
                            self.spec_partitions()[g as int][q].1,
                        ),
                window as u64,
                    ),
                decreases m - t,
            {
                proof {
                    assert(vals(subs@[t as int]@).len()
                        == self.spec_partitions()[g as int][t as int].1.len());
                }
                let v = col_rolling_variance(k, &subs[t], window);
                row_out.push(v);
                t = t + 1;
            }
            out.push(row_out);
            g = g + 1;
        }
        out
    }
    /// Per selected column, per bucket: the first difference of the
    /// bucket's cells.
    pub fn diff(&self) -> (r: Vec<Vec<Vec<DataTypes>>>)
        requires
            self.wf(),
            forall|g: int| 0 <= g < self.spec_selected().len() ==> #[trigger] self.spec_key_col(
                g,
            ).len() > 0,
        ensures
            r@.len() == self.spec_selected().len(),
            forall|g: int| 0 <= g < r@.len() ==> #[trigger] r@[g]@.len()
                == self.spec_partitions()[g].len(),
            forall|g: int, t: int| 0 <= g < r@.len() && 0 <= t < r@[g]@.len() ==> vals(
                (#[trigger] r@[g]@[t])@,
            ) == spec_col_diff(
                self.spec_kind(g),
                spec_select(self.spec_key_col(g), self.spec_partitions()[g][t].1),
            ),
    {
        let n = self.column_indices.len();
        let mut out: Vec<Vec<Vec<DataTypes>>> = Vec::new();
        let mut g: usize = 0;
        while g < n
            invariant
                0 <= g <= n,
                self.wf(),
                n == self.spec_selected().len(),
                forall|q: int| 0 <= q < n ==> #[trigger] self.spec_key_col(q).len() > 0,
                out@.len() == g,
                forall|q: int| 0 <= q < g ==> #[trigger] out@[q]@.len()
                    == self.spec_partitions()[q].len(),
                forall|q: int, t: int| 0 <= q < g && 0 <= t < out@[q]@.len() ==> vals(
                    (#[trigger] out@[q]@[t])@,
                ) == spec_col_diff(
                    self.spec_kind(q),
                    spec_select(self.spec_key_col(q), self.spec_partitions()[q][t].1),
                ),
            decreases n - g,
        {
            proof {
                assert(self.spec_selected()[g as int] == self.column_indices@[g as int] as int);
            }
            let ci = self.column_indices[g];
            let col = self.df.column_at(ci);
            proof {
                assert(self.spec_key_col(g as int).len() > 0);
                assert(vals(col@) == self.spec_key_col(g as int));
                assert(col@.len() == vals(col@).len());
                assert(col@.len() > 0);
            }
            let k = kind_of(&col[0]);
            proof {
                assert(col@[0]@ == self.spec_key_col(g as int)[0]);
            }
            let subs = self.sub_columns(g);
            let m = subs.len();
            let mut row_out: Vec<Vec<DataTypes>> = Vec::new();
            let mut t: usize = 0;
            while t < m
                invariant
                    0 <= t <= m,
                    self.wf(),
                    (g as int) < self.spec_selected().len(),
                    m == subs@.len(),
                    m == self.spec_partitions()[g as int].len(),
                    k == self.spec_kind(g as int),
                    forall|q: int| 0 <= q < m ==> #[trigger] vals(subs@[q]@) == spec_select(
                        self.spec_key_col(g as int),
                        self.spec_partitions()[g as int][q].1,
                    ),
                    forall|q: int| 0 <= q < m ==> #[trigger] subs@[q]@.len() > 0,
                    row_out@.len() == t,
                    forall|q: int| 0 <= q < t ==> vals((#[trigger] row_out@[q])@) == spec_col_diff(
                        self.spec_kind(g as int),
                        spec_select(
                            self.spec_key_col(g as int),
                            self.spec_partitions()[g as int][q].1,
                        ),
                    ),
                decreases m - t,
            {
                let v = col_diff(k, &subs[t]);
                row_out.push(v);
                t = t + 1;
            }
            out.push(row_out);
            g = g + 1;
        }
        out
    }
    /// Per selected column, per bucket: the percent change of the
    /// bucket's cells.
    pub fn pct_change(&self) -> (r: Vec<Vec<Vec<DataTypes>>>)
        requires
            self.wf(),
            forall|g: int| 0 <= g < self.spec_selected().len() ==> #[trigger] self.spec_key_col(
                g,
            ).len() > 0,
        ensures
            r@.len() == self.spec_selected().len(),
            forall|g: int| 0 <= g < r@.len() ==> #[trigger] r@[g]@.len()
                == self.spec_partitions()[g].len(),
            forall|g: int, t: int| 0 <= g < r@.len() && 0 <= t < r@[g]@.len() ==> vals(
                (#[trigger] r@[g]@[t])@,
            ) == spec_col_pct_change(
                self.spec_kind(g),
                spec_select(self.spec_key_col(g), self.spec_partitions()[g][t].1),
            ),
    {
        let n = self.column_indices.len();
        let mut out: Vec<Vec<Vec<DataTypes>>> = Vec::new();
        let mut g: usize = 0;
        while g < n
            invariant
                0 <= g <= n,
                self.wf(),
                n == self.spec_selected().len(),
                forall|q: int| 0 <= q < n ==> #[trigger] self.spec_key_col(q).len() > 0,
                out@.len() == g,
                forall|q: int| 0 <= q < g ==> #[trigger] out@[q]@.len()
                    == self.spec_partitions()[q].len(),
                forall|q: int, t: int| 0 <= q < g && 0 <= t < out@[q]@.len() ==> vals(
                    (#[trigger] out@[q]@[t])@,
                ) == spec_col_pct_change(
                    self.spec_kind(q),
                    spec_select(self.spec_key_col(q), self.spec_partitions()[q][t].1),
                ),
            decreases n - g,
        {
            proof {
                assert(self.spec_selected()[g as int] == self.column_indices@[g as int] as int);
            }
            let ci = self.column_indices[g];
            let col = self.df.column_at(ci);
            proof {
                assert(self.spec_key_col(g as int).len() > 0);
                assert(vals(col@) == self.spec_key_col(g as int));
                assert(col@.len() == vals(col@).len());
                assert(col@.len() > 0);
            }
            let k = kind_of(&col[0]);
            proof {
                assert(col@[0]@ == self.spec_key_col(g as int)[0]);
            }
            let subs = self.sub_columns(g);
            let m = subs.len();
            let mut row_out: Vec<Vec<DataTypes>> = Vec::new();
            let mut t: usize = 0;
            while t < m
                invariant
                    0 <= t <= m,
                    self.wf(),
                    (g as int) < self.spec_selected().len(),
                    m == subs@.len(),
                    m == self.spec_partitions()[g as int].len(),
                    k == self.spec_kind(g as int),
                    forall|q: int| 0 <= q < m ==> #[trigger] vals(subs@[q]@) == spec_select(
                        self.spec_key_col(g as int),
                        self.spec_partitions()[g as int][q].1,
                    ),
                    forall|q: int| 0 <= q < m ==> #[trigger] subs@[q]@.len() > 0,
                    row_out@.len() == t,
                    forall|q: int| 0 <= q < t ==> vals((#[trigger] row_out@[q])@) == spec_col_pct_change(
                        self.spec_kind(g as int),
                        spec_select(
                            self.spec_key_col(g as int),
                            self.spec_partitions()[g as int][q].1,
                        ),
                    ),
                decreases m - t,
            {
                let v = col_pct_change(k, &subs[t]);
                row_out.push(v);
                t = t + 1;
            }
            out.push(row_out);
            g = g + 1;
        }
        out
    }

    /// The named column of the group's table, by first-match lookup.
    pub open spec fn spec_named_col(&self, name: Seq<char>) -> Seq<ValueModel> {
        self.spec_df().spec_columns()[spec_col_index(self.spec_df().spec_labels(), name)]
    }

    /// Per selected key column, per bucket (in first-occurrence order):
    /// the mean of the cells of the column labeled `column_name` at the
    /// bucket's rows — the key column groups the rows, the named column
    /// supplies the values. The named column must cover every grouped
    /// row.
    pub fn mean_of(&self, column_name: &str) -> (r: Vec<Vec<DataTypes>>)
        requires
            self.wf(),
            spec_has_label(self.spec_df().spec_labels(), column_name@),
            self.spec_named_col(column_name@).len() > 0,
            forall|g: int| 0 <= g < self.spec_selected().len() ==> #[trigger] self.spec_key_col(
                g,
            ).len() <= self.spec_named_col(column_name@).len(),
        ensures
            r@.len() == self.spec_selected().len(),
            forall|g: int| 0 <= g < r@.len() ==> #[trigger] r@[g]@.len()
                == self.spec_partitions()[g].len(),
            forall|g: int, t: int| 0 <= g < r@.len() && 0 <= t < r@[g]@.len() ==> (
            #[trigger] r@[g]@[t])@ == spec_col_mean(
                spec_kind_of(self.spec_named_col(column_name@)[0]),
                spec_select(self.spec_named_col(column_name@), self.spec_partitions()[g][t].1),
            ),
    {
        proof {
            lemma_col_index_props(self.spec_df().spec_labels(), column_name@);
        }
        let vi = self.df.get_column_index(column_name);
        let vcol = self.df.column_at(vi);
        // binding the length pins it (and so the column) under usize::MAX
        let _vcol_len = vcol.len();
        let vk = kind_of(&vcol[0]);
        let ghost vseq = self.spec_named_col(column_name@);
        proof {
            assert(vals(vcol@) == vseq);
            assert(vcol@[0]@ == vseq[0]);
        }
        let n = self.column_indices.len();
        let mut out: Vec<Vec<DataTypes>> = Vec::new();
        let mut g: usize = 0;
        while g < n
            invariant
                0 <= g <= n,
                self.wf(),
                n == self.spec_selected().len(),
                vseq == self.spec_named_col(column_name@),
                vals(vcol@) == vseq,
                vcol@.len() == vseq.len(),
                vseq.len() <= usize::MAX,
                vk == spec_kind_of(vseq[0]),
                vseq.len() > 0,
                forall|q: int| 0 <= q < n ==> #[trigger] self.spec_key_col(q).len()
                    <= vseq.len(),
                out@.len() == g,
                forall|q: int| 0 <= q < g ==> #[trigger] out@[q]@.len()
                    == self.spec_partitions()[q].len(),
                forall|q: int, t: int| 0 <= q < g && 0 <= t < out@[q]@.len() ==> (
                #[trigger] out@[q]@[t])@ == spec_col_mean(
                    spec_kind_of(vseq[0]),
                    spec_select(vseq, self.spec_partitions()[q][t].1),
                ),
            decreases n - g,
        {
            let buckets = &self.indices[g];
            let m = buckets.len();
            let ghost colseq = self.spec_key_col(g as int);
            proof {
                assert(self.spec_selected()[g as int] == self.column_indices@[g as int] as int);
                assert(self.spec_partitions()[g as int] == bucket_views(self.indices@[g as int]@));
                assert(colseq.len() <= vseq.len());
                assert(vseq.len() == vcol@.len());
                assert(colseq.len() <= usize::MAX);
                lemma_keys_distinct(colseq);
            }
            let mut row_out: Vec<DataTypes> = Vec::new();
            let mut t: usize = 0;
            while t < m
                invariant
                    0 <= t <= m,
                    self.wf(),
                    (g as int) < self.spec_selected().len(),
                    m == buckets@.len(),
                    buckets@ == self.indices@[g as int]@,
                    self.spec_partitions()[g as int] == bucket_views(buckets@),
                    bucket_views(buckets@) == spec_partition(colseq),
                    colseq == self.spec_key_col(g as int),
                    colseq.len() <= vseq.len(),
                    colseq.len() <= usize::MAX,
                    vseq == self.spec_named_col(column_name@),
                    vals(vcol@) == vseq,
                    vcol@.len() == vseq.len(),
                    vk == spec_kind_of(vseq[0]),
                    vseq.len() > 0,
                    row_out@.len() == t,
                    forall|q: int| 0 <= q < t ==> (#[trigger] row_out@[q])@ == spec_col_mean(
                        spec_kind_of(vseq[0]),
                        spec_select(vseq, self.spec_partitions()[g as int][q].1),
                    ),
                decreases m - t,
            {
                let rows = &buckets[t].1;
                proof {
                    let keys = spec_keys(colseq);
                    assert(bucket_views(buckets@).len() == buckets@.len());
                    assert(spec_partition(colseq).len() == keys.len());
                    assert(keys.len() == m);
                    assert(bucket_views(buckets@)[t as int]
                        == (buckets@[t as int].0@, buckets@[t as int].1@));
                    assert(bucket_views(buckets@)[t as int] == spec_partition(colseq)[t as int]);
                    assert(spec_partition(colseq)[t as int].1 == spec_bucket_rows(
                        colseq,
                        keys[t as int],
                    ));
                    assert(rows@ == spec_bucket_rows(colseq, keys[t as int]));
                    lemma_bucket_rows_props(colseq, keys[t as int]);
                    assert(keys.contains(keys[t as int]));
                    lemma_keys_contains(colseq, keys[t as int]);
                    lemma_bucket_rows_nonempty(colseq, keys[t as int]);
                }
                let sub = materialize(vcol, rows);
                let v = col_mean(vk, &sub);
                row_out.push(v);
                t = t + 1;
            }
            out.push(row_out);
            g = g + 1;
        }
        out
    }
}

impl DataFrame {
    /// An index over this table, built from the named key columns; each
    /// name is resolved by first match and partitioned independently.
    pub fn group_by<'b>(&'b self, column_names: Vec<&str>) -> (r: Group<'b>)
        requires
            self.wf(),
            forall|g: int| 0 <= g < column_names@.len() ==> spec_has_label(
                self.spec_labels(),
                #[trigger] column_names@[g]@,
            ),
        ensures
            r.wf(),
            r.spec_df() == *self,
            r.spec_selected() == Seq::new(
                column_names@.len(),
                |g: int| spec_col_index(self.spec_labels(), column_names@[g]@),
            ),
    {
        Group::new(self, column_names)
    }

}

/// Grouping independence: selecting several key columns yields one
/// partition per column, each depending only on that column's own cells
/// — never a joint partition over tuples of the selected columns.
pub proof fn lemma_grouping_independence<'a>(gr: &Group<'a>, g: int)
    requires
        gr.wf(),
        0 <= g < gr.spec_selected().len(),
    ensures
        gr.spec_partitions()[g] == spec_partition(gr.spec_key_col(g)),
{
}

} // verus!

