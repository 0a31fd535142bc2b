//! The record store: the latest known state of each image, one record per
//! image, listed newest first.
//!
//! The store lives in memory and none of its operations can fail. Where a
//! durable copy is kept, a change is written there first and reaches the
//! store only once that write succeeded: see [`crate::handler`].

use vstd::prelude::*;
use crate::record::{ImageRecord, RecordView};
use crate::table::{
    images, lemma_count, lemma_insert, lemma_insert_in_order, lemma_lists_own_table, lemma_lookup,
    lemma_remove, lists, newest_first, one_per_image, table_of, written, Table,
};
use crate::text::{lemma_text_le_total, same_text, text_le, text_precedes};

verus! {

/// What a sequence of records holds, as values.
pub open spec fn views(rows: Seq<ImageRecord>) -> Seq<RecordView> {
    rows.map_values(|r: ImageRecord| r@)
}

/// The store. Its view is the table of its records.
pub struct RecordStore {
    rows: Vec<ImageRecord>,
}

impl View for RecordStore {
    type V = Table;

    closed spec fn view(&self) -> Table {
        table_of(views(self.rows@))
    }
}

impl RecordStore {
    /// The store holds one record per image, newest first. Every store
    /// that this module hands out is well formed.
    pub closed spec fn well_formed(&self) -> bool {
        &&& one_per_image(views(self.rows@))
        &&& newest_first(views(self.rows@))
    }

    /// A store without records.
    pub fn new() -> (store: RecordStore)
        ensures
            store.well_formed(),
            store@ == Map::<Seq<char>, RecordView>::empty(),
    {
        let store = RecordStore { rows: Vec::new() };
        assert(store@ =~= Map::<Seq<char>, RecordView>::empty());
        store
    }

    /// The store that results from writing `records` to an empty store,
    /// one after the other.
    pub fn restore(records: Vec<ImageRecord>) -> (store: RecordStore)
        ensures
            store.well_formed(),
            store@ == written(Map::empty(), views(records@)),
    {
        let mut store = RecordStore::new();
        let mut i: usize = 0;
        while i < records.len()
            invariant
                i <= records.len(),
                store.well_formed(),
                store@ == written(Map::empty(), views(records@).subrange(0, i as int)),
            decreases records.len() - i,
        {
            store.upsert(records[i].clone());
            proof {
                let done = views(records@).subrange(0, i + 1);
                assert(done.drop_last() =~= views(records@).subrange(0, i as int));
                assert(done.last() == records[i as int]@);
            }
            i = i + 1;
        }
        assert(views(records@).subrange(0, i as int) =~= views(records@));
        store
    }

    /// The number of records, which is the number of images known.
    pub fn len(&self) -> (n: usize)
        requires
            self.well_formed(),
        ensures
            self@.dom().finite(),
            n == self@.dom().len(),
    {
        proof {
            lemma_count(views(self.rows@));
        }
        self.rows.len()
    }

    /// Where the record of `image` stands among the rows, if it has one.
    fn position(&self, image: &str) -> (at: Option<usize>)
        ensures
            match at {
                Some(i) => i < self.rows.len() && self.rows[i as int]@.image == image@,
                None => !images(views(self.rows@)).contains(image@),
            },
    {
        let mut i: usize = 0;
        while i < self.rows.len()
            invariant
                i <= self.rows.len(),
                forall|j: int| 0 <= j < i ==> self.rows[j]@.image != image@,
            decreases self.rows.len() - i,
        {
            if same_text(self.rows[i].image.as_str(), image) {
                return Some(i);
            }
            i = i + 1;
        }
        proof {
            let keys = images(views(self.rows@));
            if keys.contains(image@) {
                let j = keys.index_of(image@);
                assert(keys[j] == self.rows[j]@.image);
            }
        }
        None
    }

    /// The place in front of the first row that was written no later than
    /// `updated_at`.
    fn slot(&self, updated_at: &str) -> (p: usize)
        ensures
            p <= self.rows.len(),
            forall|j: int| 0 <= j < p ==> !text_le(#[trigger] self.rows[j]@.updated_at, updated_at@),
            p < self.rows.len() ==> text_le(self.rows[p as int]@.updated_at, updated_at@),
    {
        let mut p: usize = 0;
        while p < self.rows.len()
            invariant
                p <= self.rows.len(),
                forall|j: int|
                    0 <= j < p ==> !text_le(#[trigger] self.rows[j]@.updated_at, updated_at@),
            decreases self.rows.len() - p,
        {
            if text_precedes(self.rows[p].updated_at.as_str(), updated_at) {
                return p;
            }
            p = p + 1;
        }
        p
    }

    /// Writes a record: it becomes the one record of its image, in place of
    /// any record that the image had, and every other record stays.
    pub fn upsert(&mut self, record: ImageRecord)
        requires
            old(self).well_formed(),
        ensures
            final(self).well_formed(),
            final(self)@ == old(self)@.insert(record@.image, record@),
    {
        let ghost before = views(self.rows@);
        match self.position(record.image.as_str()) {
            Some(i) => {
                self.rows.remove(i);
                proof {
                    assert(views(self.rows@) =~= before.remove(i as int));
                    lemma_remove(before, i as int);
                    lemma_lookup(before, i as int);
                    assert(!images(before.remove(i as int)).contains(record@.image)) by {
                        lemma_gone(before, i as int);
                    }
                }
            },
            None => {},
        }
        let ghost cleared = views(self.rows@);
        assert(table_of(cleared) == table_of(before).remove(record@.image)) by {
            if cleared == before {
                assert(table_of(before).remove(record@.image) =~= table_of(before));
            }
        }
        let p = self.slot(record.updated_at.as_str());
        let ghost r = record@;
        self.rows.insert(p, record);
        proof {
            assert(views(self.rows@) =~= cleared.insert(p as int, r));
            lemma_insert(cleared, p as int, r);
            assert forall|j: int| 0 <= j < p implies text_le(
                r.updated_at,
                #[trigger] cleared[j].updated_at,
            ) by {
                lemma_text_le_total(r.updated_at, cleared[j].updated_at);
            }
            lemma_insert_in_order(cleared, p as int, r);
            assert(table_of(before).remove(r.image).insert(r.image, r) =~= table_of(before).insert(
                r.image,
                r,
            ));
        }
    }

    /// Removes the record of `image`, if it has one, and says whether it
    /// had. Every other record stays.
    pub fn delete(&mut self, image: &str) -> (removed: bool)
        requires
            old(self).well_formed(),
        ensures
            final(self).well_formed(),
            final(self)@ == old(self)@.remove(image@),
            removed == old(self)@.contains_key(image@),
    {
        let ghost before = views(self.rows@);
        match self.position(image) {
            Some(i) => {
                self.rows.remove(i);
                proof {
                    assert(views(self.rows@) =~= before.remove(i as int));
                    lemma_remove(before, i as int);
                    lemma_lookup(before, i as int);
                }
                true
            },
            None => {
                assert(table_of(before).remove(image@) =~= table_of(before));
                false
            },
        }
    }

    /// Every record, newest first.
    pub fn list_all(&self) -> (out: Vec<ImageRecord>)
        requires
            self.well_formed(),
        ensures
            lists(views(out@), self@),
            self@.dom().finite(),
            out@.len() == self@.dom().len(),
    {
        let mut out: Vec<ImageRecord> = Vec::new();
        let mut i: usize = 0;
        while i < self.rows.len()
            invariant
                i <= self.rows.len(),
                out@.len() == i,
                views(out@) == views(self.rows@).subrange(0, i as int),
            decreases self.rows.len() - i,
        {
            let ghost copied = out@;
            out.push(self.rows[i].clone());
            assert(views(out@) =~= views(self.rows@).subrange(0, i + 1)) by {
                assert forall|j: int| 0 <= j < i implies views(out@)[j] == views(self.rows@)[j] by {
                    assert(out@[j] == copied[j]);
                    assert(views(copied)[j] == views(self.rows@).subrange(0, i as int)[j]);
                }
            }
            i = i + 1;
        }
        proof {
            assert(views(out@) =~= views(self.rows@));
            lemma_lists_own_table(views(self.rows@));
            lemma_count(views(self.rows@));
        }
        out
    }
}

/// Once a record is taken out of a sequence with one record per image, no
/// record of its image is left.
proof fn lemma_gone(rows: Seq<RecordView>, i: int)
    requires
        one_per_image(rows),
        0 <= i < rows.len(),
    ensures
        !images(rows.remove(i)).contains(rows[i].image),
{
    lemma_remove(rows, i);
    lemma_lookup(rows, i);
    assert(!table_of(rows).remove(rows[i].image).contains_key(rows[i].image));
}

} // verus!
