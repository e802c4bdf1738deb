//! The Dataset Index: pending records grouped by receiver, in first-occurrence
//! order of the receivers, each group in source-record order. Built once from
//! the rows of the external record source, read-only afterwards.

use vstd::prelude::*;

use crate::record::{ParcelRecord, ParcelRecordModel};

verus! {

/// One receiver together with its pending records, in source order.
#[derive(Debug)]
pub struct Group {
    pub receiver: String,
    pub records: Vec<ParcelRecord>,
}

/// Mathematical model of a `Group`.
pub struct GroupModel {
    pub receiver: Seq<char>,
    pub records: Seq<ParcelRecordModel>,
}

impl View for Group {
    type V = GroupModel;

    open spec fn view(&self) -> GroupModel {
        GroupModel { receiver: self.receiver@, records: self.records.deep_view() }
    }
}

impl DeepView for Group {
    type V = GroupModel;

    open spec fn deep_view(&self) -> GroupModel {
        self.view()
    }
}

/// The distinct receivers of `rows`, in order of first occurrence.
pub open spec fn key_order(rows: Seq<ParcelRecordModel>) -> Seq<Seq<char>>
    decreases rows.len(),
{
    if rows.len() == 0 {
        Seq::empty()
    } else {
        let prev = key_order(rows.drop_last());
        if prev.contains(rows.last().receiver) {
            prev
        } else {
            prev.push(rows.last().receiver)
        }
    }
}

/// The records of `rows` whose receiver is `key`, in source order.
pub open spec fn group_of(rows: Seq<ParcelRecordModel>, key: Seq<char>) -> Seq<ParcelRecordModel>
    decreases rows.len(),
{
    if rows.len() == 0 {
        Seq::empty()
    } else {
        let prev = group_of(rows.drop_last(), key);
        if rows.last().receiver == key {
            prev.push(rows.last())
        } else {
            prev
        }
    }
}

/// A key is in `key_order` exactly when some row carries it.
pub proof fn lemma_key_order_contains(rows: Seq<ParcelRecordModel>, key: Seq<char>)
    ensures
        key_order(rows).contains(key) <==> exists|i: int|
            0 <= i < rows.len() && rows[i].receiver == key,
    decreases rows.len(),
{
    if rows.len() > 0 {
        lemma_key_order_contains(rows.drop_last(), key);
        if key_order(rows).contains(key) {
            if rows.last().receiver == key {
                assert(rows[rows.len() - 1].receiver == key);
            } else {
                assert(key_order(rows.drop_last()).contains(key));
                let i = choose|i: int|
                    0 <= i < rows.drop_last().len() && rows.drop_last()[i].receiver == key;
                assert(rows[i].receiver == key);
            }
        }
        if exists|i: int| 0 <= i < rows.len() && rows[i].receiver == key {
            let i = choose|i: int| 0 <= i < rows.len() && rows[i].receiver == key;
            if i < rows.len() - 1 {
                assert(rows.drop_last()[i].receiver == key);
                assert(key_order(rows.drop_last()).contains(key));
                let j = choose|j: int|
                    0 <= j < key_order(rows.drop_last()).len() && key_order(rows.drop_last())[j]
                        == key;
                assert(key_order(rows)[j] == key);
                assert(key_order(rows).contains(key));
            } else {
                if !key_order(rows.drop_last()).contains(key) {
                    assert(key_order(rows)[key_order(rows).len() - 1] == key);
                }
            }
        }
    }
}

/// A key that no row carries owns an empty group.
pub proof fn lemma_absent_key_group_empty(rows: Seq<ParcelRecordModel>, key: Seq<char>)
    requires
        forall|i: int| 0 <= i < rows.len() ==> rows[i].receiver != key,
    ensures
        group_of(rows, key).len() == 0,
    decreases rows.len(),
{
    if rows.len() > 0 {
        assert(forall|i: int|
            0 <= i < rows.drop_last().len() ==> rows.drop_last()[i].receiver != key);
        lemma_absent_key_group_empty(rows.drop_last(), key);
        assert(rows[rows.len() - 1].receiver != key);
    }
}

/// The keys of `key_order` are pairwise distinct.
pub proof fn lemma_key_order_distinct(rows: Seq<ParcelRecordModel>)
    ensures
        forall|a: int, b: int|
            0 <= a < b < key_order(rows).len() ==> key_order(rows)[a] != key_order(rows)[b],
    decreases rows.len(),
{
    if rows.len() > 0 {
        lemma_key_order_distinct(rows.drop_last());
        let prev = key_order(rows.drop_last());
        if !prev.contains(rows.last().receiver) {
            assert forall|a: int, b: int|
                0 <= a < b < key_order(rows).len() implies key_order(rows)[a]
                != key_order(rows)[b] by {
                if b == key_order(rows).len() - 1 {
                    assert(prev[a] != rows.last().receiver);
                }
            }
        }
    }
}

/// The receiver-keyed index: groups in first-occurrence order, keys distinct.
#[derive(Debug)]
pub struct DatasetIndex {
    groups: Vec<Group>,
}

impl View for DatasetIndex {
    type V = Seq<GroupModel>;

    closed spec fn view(&self) -> Seq<GroupModel> {
        self.groups.deep_view()
    }
}

impl DatasetIndex {
    /// No two groups share a receiver.
    pub open spec fn wf(self) -> bool {
        forall|a: int, b: int|
            0 <= a < b < self@.len() ==> self@[a].receiver != self@[b].receiver
    }

    /// How many distinct receivers the index holds.
    pub fn group_count(&self) -> (n: usize)
        ensures
            n == self@.len(),
    {
        self.groups.len()
    }

    /// The group at position `i` in first-occurrence order.
    pub fn group_at(&self, i: usize) -> (g: &Group)
        requires
            i < self@.len(),
        ensures
            g.deep_view() == self@[i as int],
    {
        &self.groups[i]
    }

    /// The records pending for `receiver`, or `None` when the index has no
    /// group for it.
    pub fn records_for(&self, receiver: &String) -> (r: Option<&Vec<ParcelRecord>>)
        ensures
            match r {
                Some(recs) => exists|j: int|
                    0 <= j < self@.len() && self@[j].receiver == receiver@
                        && recs.deep_view() == self@[j].records,
                None => forall|j: int| 0 <= j < self@.len() ==> self@[j].receiver != receiver@,
            },
    {
        let n: usize = self.groups.len();
        for i in 0..n
            invariant
                n == self.groups@.len(),
                n == self@.len(),
                forall|j: int| 0 <= j < self@.len() ==> self@[j] == self.groups@[j].deep_view(),
                forall|j: int| 0 <= j < i ==> self@[j].receiver != receiver@,
        {
            if self.groups[i].receiver == *receiver {
                assert(self@[i as int].receiver == receiver@);
                return Some(&self.groups[i].records);
            }
            assert(self@[i as int].receiver != receiver@);
        }
        None
    }
}

/// Builds the Dataset Index from the source rows: one group per distinct
/// receiver in first-occurrence order, each group holding that receiver's
/// records in source order.
pub fn build_index(rows: &Vec<ParcelRecord>) -> (idx: DatasetIndex)
    ensures
        idx@.len() == key_order(rows.deep_view()).len(),
        forall|j: int|
            0 <= j < idx@.len() ==> idx@[j].receiver == key_order(rows.deep_view())[j]
                && idx@[j].records == group_of(rows.deep_view(), key_order(rows.deep_view())[j]),
        idx.wf(),
{
    let ghost rv = rows.deep_view();
    let mut groups: Vec<Group> = Vec::new();
    let n: usize = rows.len();
    proof {
        assert(rv.take(0) =~= Seq::<ParcelRecordModel>::empty());
    }
    for i in 0..n
        invariant
            n == rows@.len(),
            rv == rows.deep_view(),
            rv.len() == n,
            groups@.len() == key_order(rv.take(i as int)).len(),
            forall|j: int| #![trigger groups@[j]]
                0 <= j < groups@.len() ==> groups@[j].receiver@ == key_order(rv.take(i as int))[j]
                    && groups@[j].records.deep_view() == group_of(
                    rv.take(i as int),
                    key_order(rv.take(i as int))[j],
                ),
    {
        let ghost prefix = rv.take(i as int);
        let ghost next_prefix = rv.take(i as int + 1);
        proof {
            assert(next_prefix.drop_last() =~= prefix);
            assert(next_prefix.last() == rv[i as int]);
            assert(rv[i as int] == rows@[i as int].deep_view());
            lemma_key_order_distinct(prefix);
        }
        let row = &rows[i];
        let g: usize = groups.len();
        let mut j: usize = 0;
        let mut found: Option<usize> = None;
        while j < g && found.is_none()
            invariant
                g == groups@.len(),
                match found {
                    Some(f) => f < g && groups@[f as int].receiver@ == row.receiver@,
                    None => forall|l: int| 0 <= l < j ==> groups@[l].receiver@ != row.receiver@,
                },
            decreases g - j + (if found.is_none() { 1int } else { 0int }),
        {
            if groups[j].receiver == row.receiver {
                found = Some(j);
            } else {
                j = j + 1;
            }
        }
        let ghost gs0 = groups@;
        match found {
            Some(f) => {
                proof {
                    // the key already stands in the order, which is unchanged
                    assert(gs0[f as int] == groups@[f as int]);
                    assert(gs0[f as int].receiver@ == key_order(prefix)[f as int]);
                    assert(gs0[f as int].records.deep_view() == group_of(
                        prefix,
                        key_order(prefix)[f as int],
                    ));
                    assert(key_order(prefix)[f as int] == rv[i as int].receiver);
                    assert(key_order(prefix).contains(rv[i as int].receiver));
                    assert(key_order(next_prefix) == key_order(prefix));
                }
                let mut grp: Group = groups.remove(f);
                grp.records.push(row.clone());
                let ghost grp_new = grp;
                groups.insert(f, grp);
                proof {
                    assert(groups@ =~= gs0.update(f as int, grp_new));
                    assert(grp_new.records.deep_view() =~= gs0[f as int].records.deep_view().push(
                        rv[i as int],
                    ));
                    assert forall|k: int| #![trigger groups@[k]] 0 <= k < groups@.len() implies
                        groups@[k].receiver@ == key_order(next_prefix)[k]
                        && groups@[k].records.deep_view()
                        == group_of(next_prefix, key_order(next_prefix)[k]) by {
                        assert(gs0[k].receiver@ == key_order(prefix)[k]);
                        if k == f {
                            assert(group_of(next_prefix, key_order(next_prefix)[k]) == group_of(
                                prefix,
                                key_order(prefix)[k],
                            ).push(rv[i as int]));
                        } else {
                            assert(key_order(next_prefix)[k] != rv[i as int].receiver);
                            assert(group_of(next_prefix, key_order(next_prefix)[k]) == group_of(
                                prefix,
                                key_order(prefix)[k],
                            ));
                        }
                    }
                }
            },
            None => {
                proof {
                    // no group holds the key, so no earlier row carries it
                    assert forall|l: int| 0 <= l < key_order(prefix).len() implies key_order(
                        prefix,
                    )[l] != rv[i as int].receiver by {
                        assert(groups@[l].receiver@ == key_order(prefix)[l]);
                    }
                    if key_order(prefix).contains(rv[i as int].receiver) {
                        assert(false);
                    }
                    assert(key_order(next_prefix) == key_order(prefix).push(
                        rv[i as int].receiver,
                    ));
                    lemma_key_order_contains(prefix, rv[i as int].receiver);
                    assert(forall|l: int|
                        0 <= l < prefix.len() ==> prefix[l].receiver != rv[i as int].receiver);
                    lemma_absent_key_group_empty(prefix, rv[i as int].receiver);
                }
                let mut recs: Vec<ParcelRecord> = Vec::new();
                recs.push(row.clone());
                groups.push(Group { receiver: row.receiver.clone(), records: recs });
                proof {
                    let last = groups@.len() - 1;
                    assert(groups@[last].records.deep_view() =~= group_of(
                        prefix,
                        rv[i as int].receiver,
                    ).push(rv[i as int]));
                    assert forall|k: int| #![trigger groups@[k]] 0 <= k < groups@.len() implies
                        groups@[k].receiver@ == key_order(next_prefix)[k]
                        && groups@[k].records.deep_view()
                        == group_of(next_prefix, key_order(next_prefix)[k]) by {
                        if k < last {
                            assert(groups@[k] == gs0[k]);
                            assert(gs0[k].receiver@ == key_order(prefix)[k]);
                            assert(key_order(next_prefix)[k] != rv[i as int].receiver);
                            assert(group_of(next_prefix, key_order(next_prefix)[k]) == group_of(
                                prefix,
                                key_order(prefix)[k],
                            ));
                        }
                    }
                }
            },
        }
    }
    proof {
        assert(rv.take(n as int) =~= rv);
    }
    let idx = DatasetIndex { groups };
    proof {
        lemma_key_order_distinct(rv);
        assert(forall|j: int|
            0 <= j < idx@.len() ==> idx@[j] == idx.groups@[j].deep_view());
    }
    idx
}

} // verus!
