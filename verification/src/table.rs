//! A table of rows that carry an identifier and a creation time: identifiers
//! are handed out in growing order and never reused, and the rows are kept in
//! the order of their creation times.

use vstd::prelude::*;

use crate::text::{lemma_lex_le_total, lemma_lex_le_trans, lex_le, text_le, to_chars};

verus! {

/// A row of a table.
pub trait Record: View + Sized {
    /// The identifier of a row.
    spec fn id_of(v: Self::V) -> int;

    /// The creation time of a row.
    spec fn stamp_of(v: Self::V) -> Seq<char>;

    /// The identifier of this row.
    fn row_id(&self) -> (id: i64)
        ensures
            id == Self::id_of(self@),
    ;

    /// The creation time of this row.
    fn row_stamp(&self) -> (stamp: &String)
        ensures
            stamp@ == Self::stamp_of(self@),
    ;

    /// A copy of this row.
    fn duplicate(&self) -> (copy: Self)
        ensures
            copy@ == self@,
    ;
}

/// The views of a run of rows.
pub open spec fn row_views<R: Record>(rows: Seq<R>) -> Seq<R::V> {
    rows.map_values(|r: R| r@)
}

/// Some row has the identifier `id`.
pub open spec fn has_id<R: Record>(rows: Seq<R::V>, id: int) -> bool {
    exists|i: int| 0 <= i < rows.len() && R::id_of(#[trigger] rows[i]) == id
}

/// Where the row with the identifier `id` stands.
pub open spec fn index_of_id<R: Record>(rows: Seq<R::V>, id: int) -> int {
    choose|i: int| 0 <= i < rows.len() && R::id_of(#[trigger] rows[i]) == id
}

/// The row with the identifier `id`, if there is one.
pub open spec fn row_with_id<R: Record>(rows: Seq<R::V>, id: int) -> Option<R::V> {
    if has_id::<R>(rows, id) {
        Some(rows[index_of_id::<R>(rows, id)])
    } else {
        None
    }
}

/// The rows stand in the order of their creation times, earliest first.
pub open spec fn in_time_order<R: Record>(rows: Seq<R::V>) -> bool {
    forall|i: int, j: int|
        0 <= i < j < rows.len() ==> lex_le(
            R::stamp_of(#[trigger] rows[i]),
            R::stamp_of(#[trigger] rows[j]),
        )
}

/// Where a row created at `now` goes: behind the last row that was not created
/// after it, so that rows of one time stay in the order in which they came.
pub open spec fn slot<R: Record>(rows: Seq<R::V>, now: Seq<char>) -> int
    decreases rows.len(),
{
    if rows.len() == 0 {
        0
    } else if lex_le(R::stamp_of(rows.last()), now) {
        rows.len() as int
    } else {
        slot::<R>(rows.drop_last(), now)
    }
}

/// Identifiers are distinct and within `last_id`, and the rows stand in the
/// order of their creation times.
pub open spec fn table_wf<R: Record>(rows: Seq<R::V>, last_id: int) -> bool {
    &&& 0 <= last_id <= i64::MAX
    &&& rows.len() <= last_id
    &&& forall|i: int| 0 <= i < rows.len() ==> 1 <= R::id_of(#[trigger] rows[i]) <= last_id
    &&& forall|i: int, j: int|
        0 <= i < j < rows.len() ==> R::id_of(#[trigger] rows[i]) != R::id_of(#[trigger] rows[j])
    &&& in_time_order::<R>(rows)
}

/// The slot lies within the rows; every row before it was created no later
/// than `now`, and every row from it on was created later.
pub proof fn lemma_slot<R: Record>(rows: Seq<R::V>, now: Seq<char>)
    requires
        in_time_order::<R>(rows),
    ensures
        0 <= slot::<R>(rows, now) <= rows.len(),
        forall|k: int|
            0 <= k < slot::<R>(rows, now) ==> lex_le(R::stamp_of(#[trigger] rows[k]), now),
        forall|k: int|
            slot::<R>(rows, now) <= k < rows.len() ==> !lex_le(
                R::stamp_of(#[trigger] rows[k]),
                now,
            ),
    decreases rows.len(),
{
    if rows.len() == 0 {
    } else if lex_le(R::stamp_of(rows.last()), now) {
        assert forall|k: int| 0 <= k < rows.len() implies lex_le(
            R::stamp_of(#[trigger] rows[k]),
            now,
        ) by {
            if k < rows.len() - 1 {
                assert(lex_le(R::stamp_of(rows[k]), R::stamp_of(rows[rows.len() - 1])));
                lemma_lex_le_trans(R::stamp_of(rows[k]), R::stamp_of(rows.last()), now);
            }
        }
    } else {
        let front = rows.drop_last();
        assert forall|i: int, j: int| 0 <= i < j < front.len() implies lex_le(
            R::stamp_of(#[trigger] front[i]),
            R::stamp_of(#[trigger] front[j]),
        ) by {
            assert(front[i] == rows[i] && front[j] == rows[j]);
        }
        lemma_slot::<R>(front, now);
        assert forall|k: int| 0 <= k < slot::<R>(rows, now) implies lex_le(
            R::stamp_of(#[trigger] rows[k]),
            now,
        ) by {
            assert(rows[k] == front[k]);
        }
        assert forall|k: int| slot::<R>(rows, now) <= k < rows.len() implies !lex_le(
            R::stamp_of(#[trigger] rows[k]),
            now,
        ) by {
            if k < front.len() {
                assert(rows[k] == front[k]);
            }
        }
    }
}

/// Putting a new row, under an identifier beyond all that were handed out,
/// into its slot keeps the table well-formed.
pub proof fn lemma_insert_wf<R: Record>(rows: Seq<R::V>, last_id: int, row: R::V)
    requires
        table_wf::<R>(rows, last_id),
        last_id < R::id_of(row) <= i64::MAX,
    ensures
        table_wf::<R>(rows.insert(slot::<R>(rows, R::stamp_of(row)), row), R::id_of(row)),
        has_id::<R>(rows.insert(slot::<R>(rows, R::stamp_of(row)), row), R::id_of(row)),
        !has_id::<R>(rows, R::id_of(row)),
{
    let now = R::stamp_of(row);
    let at = slot::<R>(rows, now);
    lemma_slot::<R>(rows, now);
    let after = rows.insert(at, row);
    assert(after[at] == row);
    assert forall|i: int| 0 <= i < after.len() implies 1 <= R::id_of(#[trigger] after[i])
        <= R::id_of(row) by {
        if i < at {
            assert(after[i] == rows[i]);
        } else if i > at {
            assert(after[i] == rows[i - 1]);
        }
    }
    assert forall|i: int, j: int| 0 <= i < j < after.len() implies R::id_of(#[trigger] after[i])
        != R::id_of(#[trigger] after[j]) && lex_le(
        R::stamp_of(after[i]),
        R::stamp_of(after[j]),
    ) by {
        let si = if i < at {
            i
        } else {
            i - 1
        };
        let sj = if j < at {
            j
        } else {
            j - 1
        };
        if i != at {
            assert(after[i] == rows[si]);
        }
        if j != at {
            assert(after[j] == rows[sj]);
        }
        if i == at {
            lemma_lex_le_total(R::stamp_of(rows[sj]), now);
        }
    }
    if has_id::<R>(rows, R::id_of(row)) {
        let k = index_of_id::<R>(rows, R::id_of(row));
        assert(R::id_of(rows[k]) <= last_id);
    }
}

/// Taking a row out keeps the table well-formed, and the row's identifier is
/// then nobody's.
pub proof fn lemma_remove_wf<R: Record>(rows: Seq<R::V>, last_id: int, at: int)
    requires
        table_wf::<R>(rows, last_id),
        0 <= at < rows.len(),
    ensures
        table_wf::<R>(rows.remove(at), last_id),
        !has_id::<R>(rows.remove(at), R::id_of(rows[at])),
{
    let after = rows.remove(at);
    assert forall|i: int| 0 <= i < after.len() implies 1 <= R::id_of(#[trigger] after[i])
        <= last_id && R::id_of(after[i]) != R::id_of(rows[at]) by {
        if i < at {
            assert(after[i] == rows[i]);
        } else {
            assert(after[i] == rows[i + 1]);
        }
    }
    assert forall|i: int, j: int| 0 <= i < j < after.len() implies R::id_of(#[trigger] after[i])
        != R::id_of(#[trigger] after[j]) && lex_le(
        R::stamp_of(after[i]),
        R::stamp_of(after[j]),
    ) by {
        let si = if i < at {
            i
        } else {
            i + 1
        };
        let sj = if j < at {
            j
        } else {
            j + 1
        };
        assert(after[i] == rows[si]);
        assert(after[j] == rows[sj]);
    }
}

/// In a well-formed table an identifier stands at one place only.
pub proof fn lemma_index_of_id<R: Record>(rows: Seq<R::V>, last_id: int, at: int)
    requires
        table_wf::<R>(rows, last_id),
        0 <= at < rows.len(),
    ensures
        has_id::<R>(rows, R::id_of(rows[at])),
        index_of_id::<R>(rows, R::id_of(rows[at])) == at,
        row_with_id::<R>(rows, R::id_of(rows[at])) == Some(rows[at]),
{
    let k = index_of_id::<R>(rows, R::id_of(rows[at]));
    assert(0 <= k < rows.len() && R::id_of(rows[k]) == R::id_of(rows[at]));
    if k < at {
        assert(R::id_of(rows[k]) != R::id_of(rows[at]));
    } else if at < k {
        assert(R::id_of(rows[at]) != R::id_of(rows[k]));
    }
}

/// What a filter keeps of rows that stand in the order of their creation
/// times stands in that order too.
pub proof fn lemma_filter_keeps_time_order<R: Record>(rows: Seq<R::V>, keep: spec_fn(R::V) -> bool)
    requires
        in_time_order::<R>(rows),
    ensures
        in_time_order::<R>(rows.filter(keep)),
    decreases rows.len(),
{
    reveal(Seq::filter);
    if rows.len() > 0 {
        let front = rows.drop_last();
        assert forall|i: int, j: int| 0 <= i < j < front.len() implies lex_le(
            R::stamp_of(#[trigger] front[i]),
            R::stamp_of(#[trigger] front[j]),
        ) by {
            assert(front[i] == rows[i] && front[j] == rows[j]);
        }
        lemma_filter_keeps_time_order::<R>(front, keep);
        let kept = front.filter(keep);
        if keep(rows.last()) {
            let all = kept.push(rows.last());
            assert forall|i: int, j: int| 0 <= i < j < all.len() implies lex_le(
                R::stamp_of(#[trigger] all[i]),
                R::stamp_of(#[trigger] all[j]),
            ) by {
                if j < kept.len() {
                    assert(all[i] == kept[i] && all[j] == kept[j]);
                } else {
                    assert(all[i] == kept[i]);
                    assert(kept.contains(kept[i]));
                    front.lemma_filter_contains_rev(keep, kept[i]);
                    let k = choose|k: int| 0 <= k < front.len() && front[k] == kept[i];
                    assert(front[k] == rows[k]);
                    assert(lex_le(R::stamp_of(rows[k]), R::stamp_of(rows[rows.len() - 1])));
                }
            }
        }
    }
}

/// Putting a row into a run of rows puts it into what a filter keeps of them,
/// if the filter keeps it, at the place that the kept rows before it give it.
pub proof fn lemma_filter_insert<A>(rows: Seq<A>, at: int, row: A, keep: spec_fn(A) -> bool)
    requires
        0 <= at <= rows.len(),
    ensures
        rows.insert(at, row).filter(keep) == if keep(row) {
            rows.filter(keep).insert(rows.take(at).filter(keep).len() as int, row)
        } else {
            rows.filter(keep)
        },
        rows.take(at).filter(keep).len() <= rows.filter(keep).len(),
{
    let front = rows.take(at);
    let back = rows.skip(at);
    assert(rows =~= front + back);
    assert(rows.insert(at, row) =~= front.push(row) + back);
    Seq::filter_distributes_over_add(front, back, keep);
    Seq::filter_distributes_over_add(front.push(row), back, keep);
    front.lemma_filter_push(row, keep);
    if keep(row) {
        assert(front.filter(keep).push(row) + back.filter(keep) =~= (front.filter(keep)
            + back.filter(keep)).insert(front.filter(keep).len() as int, row));
    }
}

/// A table of rows.
pub struct Table<R: Record> {
    rows: Vec<R>,
    last_id: i64,
}

impl<R: Record> View for Table<R> {
    type V = Seq<R::V>;

    /// The rows, in the order of their creation times.
    closed spec fn view(&self) -> Seq<R::V> {
        row_views::<R>(self.rows@)
    }
}

impl<R: Record> Table<R> {
    /// The highest identifier handed out so far.
    pub closed spec fn last_id(&self) -> int {
        self.last_id as int
    }

    /// The table's invariant.
    pub open spec fn wf(&self) -> bool {
        table_wf::<R>(self@, self.last_id())
    }

    /// An empty table.
    pub fn new() -> (table: Self)
        ensures
            table.wf(),
            table@ == Seq::<R::V>::empty(),
            table.last_id() == 0,
    {
        let table = Table { rows: Vec::new(), last_id: 0 };
        assert(table@ =~= Seq::<R::V>::empty());
        table
    }

    /// The number of rows.
    pub fn len(&self) -> (n: usize)
        ensures
            n == self@.len(),
    {
        self.rows.len()
    }

    /// The row at position `at`.
    pub fn row(&self, at: usize) -> (row: &R)
        requires
            at < self@.len(),
        ensures
            row@ == self@[at as int],
    {
        &self.rows[at]
    }

    /// The identifier that the next new row gets, unless they are used up.
    pub fn next_id(&self) -> (next: Option<i64>)
        requires
            self.wf(),
        ensures
            next == if self.last_id() < i64::MAX {
                Some((self.last_id() + 1) as i64)
            } else {
                None
            },
    {
        if self.last_id == i64::MAX {
            None
        } else {
            Some(self.last_id + 1)
        }
    }

    /// Where the row with the identifier `id` stands, if there is one.
    pub fn find(&self, id: i64) -> (found: Option<usize>)
        requires
            self.wf(),
        ensures
            match found {
                Some(at) => {
                    &&& at < self@.len()
                    &&& R::id_of(self@[at as int]) == id
                    &&& has_id::<R>(self@, id as int)
                    &&& index_of_id::<R>(self@, id as int) == at
                },
                None => !has_id::<R>(self@, id as int),
            },
    {
        let mut i: usize = 0;
        while i < self.rows.len()
            invariant
                i <= self.rows.len(),
                self.wf(),
                forall|k: int| 0 <= k < i ==> R::id_of(#[trigger] self@[k]) != id,
            decreases self.rows.len() - i,
        {
            if self.rows[i].row_id() == id {
                proof {
                    lemma_index_of_id::<R>(self@, self.last_id(), i as int);
                }
                return Some(i);
            }
            i += 1;
        }
        None
    }

    /// Puts a new row into the table, at the slot that its creation time gives
    /// it. The row carries an identifier beyond all that were handed out: the
    /// one that `next_id` announced, or a later one.
    pub(crate) fn insert(&mut self, row: R)
        requires
            old(self).wf(),
            old(self).last_id() < R::id_of(row@),
        ensures
            final(self).wf(),
            final(self).last_id() == R::id_of(row@),
            final(self)@ == old(self)@.insert(
                slot::<R>(old(self)@, R::stamp_of(row@)),
                row@,
            ),
    {
        let id = row.row_id();
        let now = to_chars(row.row_stamp().as_str());
        let mut at: usize = self.rows.len();
        proof {
            assert(self@.take(at as int) =~= self@);
        }
        while at > 0
            invariant
                at <= self.rows.len(),
                *self == *old(self),
                now@ == R::stamp_of(row@),
                slot::<R>(self@, now@) == slot::<R>(self@.take(at as int), now@),
            ensures
                at <= self.rows.len(),
                *self == *old(self),
                at == slot::<R>(self@, now@),
            decreases at,
        {
            let stamp = to_chars(self.rows[at - 1].row_stamp().as_str());
            proof {
                assert(self@.take(at as int).last() == self@[at - 1]);
                assert(self@.take(at as int).drop_last() =~= self@.take(at - 1));
            }
            if text_le(&stamp, &now) {
                assert(slot::<R>(self@.take(at as int), now@) == at);
                break ;
            }
            at -= 1;
        }
        proof {
            lemma_insert_wf::<R>(self@, self.last_id(), row@);
        }
        let ghost before = self.rows@;
        self.last_id = id;
        self.rows.insert(at, row);
        assert(self@ =~= row_views::<R>(before).insert(at as int, row@));
    }

    /// Takes in a row that was stored before, as `insert` does, if its
    /// identifier lies beyond all that this table has handed out; a row with
    /// any other identifier is turned away and the table stays as it is.
    pub fn restore(&mut self, row: R) -> (accepted: bool)
        requires
            old(self).wf(),
        ensures
            final(self).wf(),
            accepted == (old(self).last_id() < R::id_of(row@)),
            accepted ==> final(self).last_id() == R::id_of(row@) && final(self)@ == old(
                self,
            )@.insert(slot::<R>(old(self)@, R::stamp_of(row@)), row@),
            !accepted ==> final(self).last_id() == old(self).last_id() && final(self)@ == old(
                self,
            )@,
    {
        if row.row_id() > self.last_id {
            self.insert(row);
            true
        } else {
            false
        }
    }

    /// Takes the row at position `at` out of the table.
    pub(crate) fn remove(&mut self, at: usize)
        requires
            old(self).wf(),
            at < old(self)@.len(),
        ensures
            final(self).wf(),
            final(self).last_id() == old(self).last_id(),
            final(self)@ == old(self)@.remove(at as int),
    {
        proof {
            lemma_remove_wf::<R>(self@, self.last_id(), at as int);
        }
        let ghost before = self.rows@;
        self.rows.remove(at);
        assert(self@ =~= row_views::<R>(before).remove(at as int));
    }

    /// A copy of the rows.
    pub fn rows(&self) -> (rows: Vec<R>)
        ensures
            row_views::<R>(rows@) == self@,
    {
        let mut out: Vec<R> = Vec::new();
        let mut i: usize = 0;
        while i < self.rows.len()
            invariant
                i <= self.rows.len(),
                row_views::<R>(out@) == self@.take(i as int),
            decreases self.rows.len() - i,
        {
            let ghost sofar = out@;
            out.push(self.rows[i].duplicate());
            assert(row_views::<R>(out@) =~= row_views::<R>(sofar).push(self@[i as int]));
            assert(self@.take(i + 1) =~= self@.take(i as int).push(self@[i as int]));
            i += 1;
        }
        assert(self@.take(i as int) =~= self@);
        out
    }
}

} // verus!
