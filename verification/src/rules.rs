//! The rule matrix: one coefficient for each ordered pair of group labels.

use vstd::prelude::*;
use crate::particle::distinct;

verus! {

/// What an entry of a row is: the label of the group that acts, and the
/// coefficient.
pub struct EntryModel<S> {
    pub target: Seq<char>,
    pub coefficient: S,
}

/// What a row is: the label of the group that is acted on, and its entries.
pub struct RowModel<S> {
    pub source: Seq<char>,
    pub entries: Seq<EntryModel<S>>,
}

/// An entry of a row of the rule matrix.
pub struct RuleEntry<S> {
    pub target: String,
    pub coefficient: S,
}

/// A row of the rule matrix.
pub struct RuleRow<S> {
    pub source: String,
    pub entries: Vec<RuleEntry<S>>,
}

/// The rule matrix. Nothing is asked of its rows: a label may be missing or
/// occur twice. Of two rows, or two entries, with one label the first counts.
/// The matrices that the engine generates are mappings (see [`unambiguous`]).
pub struct RuleMatrix<S> {
    pub rows: Vec<RuleRow<S>>,
}

impl<S> View for RuleEntry<S> {
    type V = EntryModel<S>;

    open spec fn view(&self) -> EntryModel<S> {
        EntryModel { target: self.target@, coefficient: self.coefficient }
    }
}

/// The models of a sequence of entries, in order.
pub open spec fn entry_models<S>(entries: Seq<RuleEntry<S>>) -> Seq<EntryModel<S>> {
    Seq::new(entries.len(), |i: int| entries[i]@)
}

impl<S> View for RuleRow<S> {
    type V = RowModel<S>;

    open spec fn view(&self) -> RowModel<S> {
        RowModel { source: self.source@, entries: entry_models(self.entries@) }
    }
}

/// The models of a sequence of rows, in order.
pub open spec fn row_models<S>(rows: Seq<RuleRow<S>>) -> Seq<RowModel<S>> {
    Seq::new(rows.len(), |i: int| rows[i]@)
}

impl<S> View for RuleMatrix<S> {
    type V = Seq<RowModel<S>>;

    open spec fn view(&self) -> Seq<RowModel<S>> {
        row_models(self.rows@)
    }
}

/// The coefficient of the first entry for `target` among the first `n`
/// entries.
pub open spec fn first_entry<S>(entries: Seq<EntryModel<S>>, target: Seq<char>, n: nat) -> Option<S>
    decreases n,
{
    if n == 0 {
        None
    } else {
        match first_entry(entries, target, (n - 1) as nat) {
            Some(c) => Some(c),
            None => if entries[n - 1].target == target {
                Some(entries[n - 1].coefficient)
            } else {
                None
            },
        }
    }
}

/// The index of the first row for `source` among the first `n` rows.
pub open spec fn first_row<S>(rows: Seq<RowModel<S>>, source: Seq<char>, n: nat) -> Option<int>
    decreases n,
{
    if n == 0 {
        None
    } else {
        match first_row(rows, source, (n - 1) as nat) {
            Some(i) => Some(i),
            None => if rows[n - 1].source == source {
                Some(n - 1)
            } else {
                None
            },
        }
    }
}

/// The coefficient with which group `target` acts on group `source`, if the
/// matrix has one.
pub open spec fn coefficient_in<S>(rows: Seq<RowModel<S>>, source: Seq<char>, target: Seq<char>) -> Option<S> {
    match first_row(rows, source, rows.len()) {
        Some(i) => first_entry(rows[i].entries, target, rows[i].entries.len()),
        None => None,
    }
}

/// Once an entry is found, later entries do not change the answer.
pub proof fn lemma_first_entry_stable<S>(entries: Seq<EntryModel<S>>, target: Seq<char>, n: nat, m: nat)
    requires
        n <= m,
        first_entry(entries, target, n).is_some(),
    ensures
        first_entry(entries, target, m) == first_entry(entries, target, n),
    decreases m,
{
    if n < m {
        lemma_first_entry_stable(entries, target, n, (m - 1) as nat);
    }
}

/// Once a row is found, later rows do not change the answer.
pub proof fn lemma_first_row_stable<S>(rows: Seq<RowModel<S>>, source: Seq<char>, n: nat, m: nat)
    requires
        n <= m,
        first_row(rows, source, n).is_some(),
    ensures
        first_row(rows, source, m) == first_row(rows, source, n),
    decreases m,
{
    if n < m {
        lemma_first_row_stable(rows, source, n, (m - 1) as nat);
    }
}

/// A row that is found lies among the rows searched and has the label.
pub proof fn lemma_first_row_found<S>(rows: Seq<RowModel<S>>, source: Seq<char>, n: nat)
    requires
        n <= rows.len(),
    ensures
        match first_row(rows, source, n) {
            Some(i) => 0 <= i < n && rows[i].source == source && forall|k: int|
                0 <= k < i ==> (#[trigger] rows[k]).source != source,
            None => forall|k: int| 0 <= k < n ==> (#[trigger] rows[k]).source != source,
        },
    decreases n,
{
    if n > 0 {
        lemma_first_row_found(rows, source, (n - 1) as nat);
    }
}

/// An entry that is found is the first with the label.
pub proof fn lemma_first_entry_found<S>(entries: Seq<EntryModel<S>>, target: Seq<char>, n: nat)
    requires
        n <= entries.len(),
    ensures
        match first_entry(entries, target, n) {
            Some(c) => exists|i: int|
                0 <= i < n && (#[trigger] entries[i]).target == target && entries[i].coefficient == c && forall|
                    k: int,
                | 0 <= k < i ==> (#[trigger] entries[k]).target != target,
            None => forall|k: int| 0 <= k < n ==> (#[trigger] entries[k]).target != target,
        },
    decreases n,
{
    if n > 0 {
        lemma_first_entry_found(entries, target, (n - 1) as nat);
        if first_entry(entries, target, (n - 1) as nat).is_none() && entries[n - 1].target == target {
            assert(entries[n - 1].target == target && entries[n - 1].coefficient == first_entry(
                entries,
                target,
                n,
            ).unwrap());
        }
    }
}

impl<S: Copy> RuleRow<S> {
    /// The coefficient of the first entry for `target`.
    pub fn coefficient(&self, target: &String) -> (c: Option<S>)
        ensures
            c == first_entry(self@.entries, target@, self@.entries.len()),
    {
        let mut i: usize = 0;
        while i < self.entries.len()
            invariant
                i <= self.entries.len(),
                self@.entries.len() == self.entries.len(),
                first_entry(self@.entries, target@, i as nat).is_none(),
            decreases self.entries.len() - i,
        {
            if self.entries[i].target == *target {
                let c = self.entries[i].coefficient;
                proof {
                    assert(self@.entries[i as int] == self.entries[i as int]@);
                    assert(first_entry(self@.entries, target@, (i + 1) as nat) == Some(c));
                    lemma_first_entry_stable(self@.entries, target@, (i + 1) as nat, self@.entries.len());
                }
                return Some(c);
            }
            proof {
                assert(self@.entries[i as int] == self.entries[i as int]@);
            }
            i += 1;
        }
        None
    }
}

impl<S: Copy> RuleMatrix<S> {
    /// A matrix without rows.
    pub fn new() -> (m: Self)
        ensures
            m@ == Seq::<RowModel<S>>::empty(),
    {
        let m = RuleMatrix { rows: Vec::new() };
        assert(m@ =~= Seq::<RowModel<S>>::empty());
        m
    }

    /// The coefficient with which group `target` acts on group `source`.
    pub fn coefficient(&self, source: &String, target: &String) -> (c: Option<S>)
        ensures
            c == coefficient_in(self@, source@, target@),
    {
        let mut i: usize = 0;
        while i < self.rows.len()
            invariant
                i <= self.rows.len(),
                self@.len() == self.rows.len(),
                first_row(self@, source@, i as nat).is_none(),
            decreases self.rows.len() - i,
        {
            if self.rows[i].source == *source {
                proof {
                    assert(self@[i as int] == self.rows[i as int]@);
                    assert(first_row(self@, source@, (i + 1) as nat) == Some(i as int));
                    lemma_first_row_stable(self@, source@, (i + 1) as nat, self@.len());
                }
                return self.rows[i].coefficient(target);
            }
            proof {
                assert(self@[i as int] == self.rows[i as int]@);
            }
            i += 1;
        }
        None
    }
}


/// A copy of `entries`, entry by entry.
pub fn copy_entries<S: Copy>(entries: &Vec<RuleEntry<S>>) -> (copy: Vec<RuleEntry<S>>)
    ensures
        entry_models(copy@) == entry_models(entries@),
{
    let mut copy: Vec<RuleEntry<S>> = Vec::new();
    let mut i: usize = 0;
    while i < entries.len()
        invariant
            i <= entries.len(),
            copy@.len() == i,
            forall|k: int| 0 <= k < i ==> (#[trigger] copy@[k])@ == entries@[k]@,
        decreases entries.len() - i,
    {
        copy.push(RuleEntry { target: entries[i].target.clone(), coefficient: entries[i].coefficient });
        i += 1;
    }
    assert(entry_models(copy@) =~= entry_models(entries@));
    copy
}

impl<S: Copy> Clone for RuleMatrix<S> {
    fn clone(&self) -> (m: Self)
        ensures
            m@ == self@,
    {
        let mut rows: Vec<RuleRow<S>> = Vec::new();
        let mut i: usize = 0;
        while i < self.rows.len()
            invariant
                i <= self.rows.len(),
                rows@.len() == i,
                forall|k: int| 0 <= k < i ==> (#[trigger] rows@[k])@ == self.rows@[k]@,
            decreases self.rows.len() - i,
        {
            rows.push(RuleRow { source: self.rows[i].source.clone(), entries: copy_entries(&self.rows[i].entries) });
            i += 1;
        }
        let m = RuleMatrix { rows };
        assert(m@ =~= self@);
        m
    }
}


/// The matrix has one row for each label and in each row one entry for each
/// label, in the order of `labels`, and every coefficient is a value that
/// `draw` returned.
pub open spec fn square_over<S, D: Fn() -> S>(rows: Seq<RowModel<S>>, labels: Seq<Seq<char>>, draw: D) -> bool {
    &&& rows.len() == labels.len()
    &&& forall|i: int| 0 <= i < rows.len() ==> row_over(#[trigger] rows[i], labels[i], labels, draw)
}

/// The row is for `source` and has one entry for each label, in the order of
/// `labels`, and every coefficient is a value that `draw` returned.
pub open spec fn row_over<S, D: Fn() -> S>(
    row: RowModel<S>,
    source: Seq<char>,
    labels: Seq<Seq<char>>,
    draw: D,
) -> bool {
    &&& row.source == source
    &&& row.entries.len() == labels.len()
    &&& forall|j: int|
        0 <= j < row.entries.len() ==> (#[trigger] row.entries[j]).target == labels[j] && call_ensures(
            draw,
            (),
            row.entries[j].coefficient,
        )
}

/// In a row over labels the entry for a label is found, and its coefficient
/// is a value that `draw` returned.
pub proof fn lemma_row_over_finds<S, D: Fn() -> S>(
    row: RowModel<S>,
    source: Seq<char>,
    labels: Seq<Seq<char>>,
    draw: D,
    j: int,
)
    requires
        row_over(row, source, labels, draw),
        0 <= j < labels.len(),
    ensures
        first_entry(row.entries, labels[j], row.entries.len()).is_some(),
        call_ensures(draw, (), first_entry(row.entries, labels[j], row.entries.len()).unwrap()),
{
    lemma_first_entry_found(row.entries, labels[j], row.entries.len());
    match first_entry(row.entries, labels[j], row.entries.len()) {
        Some(c) => {
            let i = choose|i: int|
                0 <= i < row.entries.len() && (#[trigger] row.entries[i]).target == labels[j]
                    && row.entries[i].coefficient == c;
            assert(call_ensures(draw, (), row.entries[i].coefficient));
        },
        None => {
            assert(row.entries[j].target == labels[j]);
        },
    }
}

/// In a matrix over labels every ordered pair of labels has a coefficient,
/// and it is a value that `draw` returned.
pub proof fn lemma_square_covers<S, D: Fn() -> S>(
    rows: Seq<RowModel<S>>,
    labels: Seq<Seq<char>>,
    draw: D,
    i: int,
    j: int,
)
    requires
        square_over(rows, labels, draw),
        0 <= i < labels.len(),
        0 <= j < labels.len(),
    ensures
        coefficient_in(rows, labels[i], labels[j]).is_some(),
        call_ensures(draw, (), coefficient_in(rows, labels[i], labels[j]).unwrap()),
{
    lemma_first_row_found(rows, labels[i], rows.len());
    match first_row(rows, labels[i], rows.len()) {
        Some(r) => {
            assert(row_over(rows[r], labels[r], labels, draw));
            lemma_row_over_finds(rows[r], labels[r], labels, draw, j);
        },
        None => {
            assert(row_over(rows[i], labels[i], labels, draw));
        },
    }
}

/// No two entries of the row are for one label.
pub open spec fn row_unambiguous<S>(row: RowModel<S>) -> bool {
    forall|i: int, j: int|
        0 <= i < j < row.entries.len() ==> (#[trigger] row.entries[i]).target != (#[trigger] row.entries[j]).target
}

/// The matrix is a mapping: no two rows are for one label, and in no row two
/// entries are for one label.
pub open spec fn unambiguous<S>(rows: Seq<RowModel<S>>) -> bool {
    &&& forall|i: int, j: int| 0 <= i < j < rows.len() ==> (#[trigger] rows[i]).source != (#[trigger] rows[j]).source
    &&& forall|r: int| 0 <= r < rows.len() ==> row_unambiguous(#[trigger] rows[r])
}

/// A matrix over labels of which none occurs twice is a mapping.
pub proof fn lemma_square_unambiguous<S, D: Fn() -> S>(rows: Seq<RowModel<S>>, labels: Seq<Seq<char>>, draw: D)
    requires
        square_over(rows, labels, draw),
        distinct(labels),
    ensures
        unambiguous(rows),
{
    assert forall|i: int, j: int| 0 <= i < j < rows.len() implies (#[trigger] rows[i]).source != (
    #[trigger] rows[j]).source by {
        assert(row_over(rows[i], labels[i], labels, draw));
        assert(row_over(rows[j], labels[j], labels, draw));
    }
    assert forall|r: int| 0 <= r < rows.len() implies row_unambiguous(#[trigger] rows[r]) by {
        assert(row_over(rows[r], labels[r], labels, draw));
        assert forall|i: int, j: int| 0 <= i < j < rows[r].entries.len() implies (
        #[trigger] rows[r].entries[i]).target != (#[trigger] rows[r].entries[j]).target by {
            assert(rows[r].entries[i].target == labels[i]);
            assert(rows[r].entries[j].target == labels[j]);
        }
    }
}

/// In a matrix that is a mapping every entry is the one that is found for
/// its two labels.
pub proof fn lemma_unambiguous_lookup<S>(rows: Seq<RowModel<S>>, r: int, e: int)
    requires
        unambiguous(rows),
        0 <= r < rows.len(),
        0 <= e < rows[r].entries.len(),
    ensures
        coefficient_in(rows, rows[r].source, rows[r].entries[e].target) == Some(rows[r].entries[e].coefficient),
{
    let source = rows[r].source;
    let target = rows[r].entries[e].target;
    lemma_first_row_found(rows, source, rows.len());
    match first_row(rows, source, rows.len()) {
        Some(i) => {
            assert(rows[i].source == rows[r].source);
            assert(i == r);
        },
        None => {
            assert(rows[r].source == source);
        },
    }
    let entries = rows[r].entries;
    assert(row_unambiguous(rows[r]));
    lemma_first_entry_found(entries, target, entries.len());
    match first_entry(entries, target, entries.len()) {
        Some(c) => {
            let i = choose|i: int|
                0 <= i < entries.len() && (#[trigger] entries[i]).target == target && entries[i].coefficient == c;
            assert(entries[i].target == entries[e].target);
            assert(i == e);
        },
        None => {
            assert(entries[e].target == target);
        },
    }
}

/// The views of a sequence of labels, in order.
pub open spec fn label_views(labels: Seq<String>) -> Seq<Seq<char>> {
    Seq::new(labels.len(), |i: int| labels[i]@)
}

impl<S: Copy> RuleMatrix<S> {
    /// A matrix with one coefficient for every ordered pair of `labels`, a
    /// label paired with itself included. Each coefficient is drawn by a call
    /// of `draw` of its own. If no label occurs twice the matrix is a
    /// mapping.
    pub fn square<D: Fn() -> S>(labels: &Vec<String>, draw: D) -> (m: Self)
        requires
            call_requires(draw, ()),
        ensures
            square_over(m@, label_views(labels@), draw),
            distinct(label_views(labels@)) ==> unambiguous(m@),
    {
        let n = labels.len();
        let mut rows: Vec<RuleRow<S>> = Vec::new();
        let mut i: usize = 0;
        while i < n
            invariant
                n == labels.len(),
                i <= n,
                rows@.len() == i,
                call_requires(draw, ()),
                forall|k: int|
                    0 <= k < i ==> row_over(
                        (#[trigger] rows@[k])@,
                        label_views(labels@)[k],
                        label_views(labels@),
                        draw,
                    ),
            decreases n - i,
        {
            let mut entries: Vec<RuleEntry<S>> = Vec::new();
            let mut j: usize = 0;
            while j < n
                invariant
                    n == labels.len(),
                    j <= n,
                    entries@.len() == j,
                    call_requires(draw, ()),
                    forall|k: int|
                        0 <= k < j ==> (#[trigger] entries@[k]).target@ == labels@[k]@ && call_ensures(
                            draw,
                            (),
                            entries@[k].coefficient,
                        ),
                decreases n - j,
            {
                let coefficient = draw();
                entries.push(RuleEntry { target: labels[j].clone(), coefficient });
                j += 1;
            }
            let row = RuleRow { source: labels[i].clone(), entries };
            assert(row_over(row@, label_views(labels@)[i as int], label_views(labels@), draw)) by {
                assert forall|k: int| 0 <= k < row@.entries.len() implies (#[trigger] row@.entries[k]).target
                    == label_views(labels@)[k] && call_ensures(draw, (), row@.entries[k].coefficient) by {
                    assert(row@.entries[k] == entries@[k]@);
                }
            }
            rows.push(row);
            i += 1;
        }
        let m = RuleMatrix { rows };
        assert forall|k: int| 0 <= k < m@.len() implies row_over(
            #[trigger] m@[k],
            label_views(labels@)[k],
            label_views(labels@),
            draw,
        ) by {
            assert(m@[k] == rows@[k]@);
        }
        proof {
            if distinct(label_views(labels@)) {
                lemma_square_unambiguous(m@, label_views(labels@), draw);
            }
        }
        m
    }
}

} // verus!
