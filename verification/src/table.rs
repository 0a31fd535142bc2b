//! The table of records as a mathematical object: a finite map from image
//! to record, and the orderings of its records that count as a listing.

use vstd::prelude::*;
use crate::record::RecordView;
use crate::text::{lemma_text_le_transitive, text_le};

verus! {

/// The table: for each image that has a record, that record.
pub type Table = Map<Seq<char>, RecordView>;

/// The images of a sequence of records, in the same order.
pub open spec fn images(rows: Seq<RecordView>) -> Seq<Seq<char>> {
    rows.map_values(|r: RecordView| r.image)
}

/// No two records of the sequence are about the same image.
pub open spec fn one_per_image(rows: Seq<RecordView>) -> bool {
    images(rows).no_duplicates()
}

/// Each record was written no earlier than every record behind it, by the
/// text order of their times of writing.
pub open spec fn newest_first(rows: Seq<RecordView>) -> bool {
    forall|i: int, j: int|
        0 <= i <= j < rows.len() ==> text_le(
            #[trigger] rows[j].updated_at,
            #[trigger] rows[i].updated_at,
        )
}

/// The table that a sequence of records spells out.
pub open spec fn table_of(rows: Seq<RecordView>) -> Table {
    Map::new(
        |image: Seq<char>| images(rows).contains(image),
        |image: Seq<char>| rows[images(rows).index_of(image)],
    )
}

/// The table after each record of `rows` was written to `table`, first to
/// last: a record takes the place of any earlier record of its image.
pub open spec fn written(table: Table, rows: Seq<RecordView>) -> Table
    decreases rows.len(),
{
    if rows.len() == 0 {
        table
    } else {
        written(table, rows.drop_last()).insert(rows.last().image, rows.last())
    }
}

/// `out` lists `table`: it holds each record of the table once, under its
/// own image, and nothing else, newest first.
pub open spec fn lists(out: Seq<RecordView>, table: Table) -> bool {
    &&& one_per_image(out)
    &&& newest_first(out)
    &&& forall|i: int|
        0 <= i < out.len() ==> table.contains_key(#[trigger] out[i].image) && table[out[i].image]
            == out[i]
    &&& forall|image: Seq<char>| #[trigger]
        table.contains_key(image) ==> images(out).contains(image)
}

/// In a sequence with one record per image, each record is the table's
/// entry for its image.
pub proof fn lemma_lookup(rows: Seq<RecordView>, i: int)
    requires
        one_per_image(rows),
        0 <= i < rows.len(),
    ensures
        table_of(rows).contains_key(rows[i].image),
        table_of(rows)[rows[i].image] == rows[i],
{
    let keys = images(rows);
    assert(keys[i] == rows[i].image);
    let j = keys.index_of(rows[i].image);
    assert(0 <= j < keys.len() && keys[j] == keys[i]);
}

/// Taking one record out of the sequence takes its image out of the table
/// and leaves the rest as it was.
pub proof fn lemma_remove(rows: Seq<RecordView>, i: int)
    requires
        one_per_image(rows),
        0 <= i < rows.len(),
    ensures
        one_per_image(rows.remove(i)),
        newest_first(rows) ==> newest_first(rows.remove(i)),
        table_of(rows.remove(i)) == table_of(rows).remove(rows[i].image),
{
    let rest = rows.remove(i);
    let keys = images(rows);
    let rest_keys = images(rest);
    assert forall|j: int| 0 <= j < rest.len() implies #[trigger] rest[j] == rows[if j < i {
        j
    } else {
        j + 1
    }] by {}
    assert forall|a: int, b: int|
        0 <= a < rest_keys.len() && 0 <= b < rest_keys.len() && a != b implies rest_keys[a]
        != rest_keys[b] by {
        let a2 = if a < i { a } else { a + 1 };
        let b2 = if b < i { b } else { b + 1 };
        assert(rest_keys[a] == keys[a2]);
        assert(rest_keys[b] == keys[b2]);
    }
    if newest_first(rows) {
        assert forall|a: int, b: int| 0 <= a <= b < rest.len() implies text_le(
            #[trigger] rest[b].updated_at,
            #[trigger] rest[a].updated_at,
        ) by {
            let a2 = if a < i { a } else { a + 1 };
            let b2 = if b < i { b } else { b + 1 };
            assert(rest[a] == rows[a2]);
            assert(rest[b] == rows[b2]);
        }
    }
    let left = table_of(rest);
    let right = table_of(rows).remove(rows[i].image);
    assert forall|image: Seq<char>| left.contains_key(image) <==> right.contains_key(image) by {
        if left.contains_key(image) {
            let j = rest_keys.index_of(image);
            let j2 = if j < i { j } else { j + 1 };
            assert(rest_keys[j] == keys[j2]);
            assert(keys[i] == rows[i].image);
        }
        if right.contains_key(image) {
            let j = keys.index_of(image);
            assert(keys[i] == rows[i].image);
            let j2 = if j < i { j } else { j - 1 };
            assert(rest_keys[j2] == keys[j]);
        }
    }
    assert forall|image: Seq<char>| left.contains_key(image) implies left[image] == right[image] by {
        let j = rest_keys.index_of(image);
        let j2 = if j < i { j } else { j + 1 };
        assert(rest_keys[j] == keys[j2]);
        lemma_lookup(rows, j2);
    }
    assert(left =~= right);
}

/// Putting a record for a new image into the sequence, at any place, adds
/// it to the table and leaves the rest as it was.
pub proof fn lemma_insert(rows: Seq<RecordView>, p: int, r: RecordView)
    requires
        one_per_image(rows),
        !images(rows).contains(r.image),
        0 <= p <= rows.len(),
    ensures
        one_per_image(rows.insert(p, r)),
        table_of(rows.insert(p, r)) == table_of(rows).insert(r.image, r),
{
    let more = rows.insert(p, r);
    let keys = images(rows);
    let more_keys = images(more);
    assert(more[p] == r);
    assert forall|j: int| 0 <= j < more.len() && j != p implies #[trigger] more[j] == rows[if j
        < p {
        j
    } else {
        j - 1
    }] by {}
    assert forall|a: int, b: int|
        0 <= a < more_keys.len() && 0 <= b < more_keys.len() && a != b implies more_keys[a]
        != more_keys[b] by {
        let a2 = if a < p { a } else { a - 1 };
        let b2 = if b < p { b } else { b - 1 };
        if a != p {
            assert(more_keys[a] == keys[a2]);
        }
        if b != p {
            assert(more_keys[b] == keys[b2]);
        }
    }
    let left = table_of(more);
    let right = table_of(rows).insert(r.image, r);
    assert forall|image: Seq<char>| left.contains_key(image) <==> right.contains_key(image) by {
        if left.contains_key(image) {
            let j = more_keys.index_of(image);
            if j != p {
                let j2 = if j < p { j } else { j - 1 };
                assert(more_keys[j] == keys[j2]);
            }
        }
        if right.contains_key(image) {
            if image == r.image {
                assert(more_keys[p] == image);
            } else {
                let j = keys.index_of(image);
                let j2 = if j < p { j } else { j + 1 };
                assert(more_keys[j2] == keys[j]);
            }
        }
    }
    assert forall|image: Seq<char>| left.contains_key(image) implies left[image] == right[image] by {
        let j = more_keys.index_of(image);
        lemma_lookup(more, j);
        if j != p {
            let j2 = if j < p { j } else { j - 1 };
            assert(more_keys[j] == keys[j2]);
            lemma_lookup(rows, j2);
        }
    }
    assert(left =~= right);
}

/// Putting a record in front of the first record that is no newer than it
/// keeps the sequence newest first.
pub proof fn lemma_insert_in_order(rows: Seq<RecordView>, p: int, r: RecordView)
    requires
        newest_first(rows),
        0 <= p <= rows.len(),
        forall|j: int| 0 <= j < p ==> text_le(r.updated_at, #[trigger] rows[j].updated_at),
        p < rows.len() ==> text_le(rows[p].updated_at, r.updated_at),
    ensures
        newest_first(rows.insert(p, r)),
{
    let more = rows.insert(p, r);
    assert(more[p] == r);
    assert forall|a: int, b: int| 0 <= a <= b < more.len() implies text_le(
        #[trigger] more[b].updated_at,
        #[trigger] more[a].updated_at,
    ) by {
        if a == b {
            assert(more[a].updated_at.is_prefix_of(more[a].updated_at));
        } else if b == p {
            assert(more[a] == rows[a]);
        } else if a == p {
            assert(more[b] == rows[b - 1]);
            assert(text_le(rows[b - 1].updated_at, rows[p].updated_at));
            lemma_text_le_transitive(rows[b - 1].updated_at, rows[p].updated_at, r.updated_at);
        } else {
            let a2 = if a < p { a } else { a - 1 };
            let b2 = if b < p { b } else { b - 1 };
            assert(more[a] == rows[a2]);
            assert(more[b] == rows[b2]);
        }
    }
}

/// A sequence with one record per image has as many records as its table
/// has images.
pub proof fn lemma_count(rows: Seq<RecordView>)
    requires
        one_per_image(rows),
    ensures
        table_of(rows).dom().finite(),
        table_of(rows).dom().len() == rows.len(),
{
    let keys = images(rows);
    assert(table_of(rows).dom() =~= keys.to_set());
    vstd::seq_lib::seq_to_set_is_finite(keys);
    keys.unique_seq_to_set();
}

/// A sequence with one record per image, newest first, lists its own table.
pub proof fn lemma_lists_own_table(rows: Seq<RecordView>)
    requires
        one_per_image(rows),
        newest_first(rows),
    ensures
        lists(rows, table_of(rows)),
{
    assert forall|i: int| 0 <= i < rows.len() implies table_of(rows).contains_key(
        #[trigger] rows[i].image,
    ) && table_of(rows)[rows[i].image] == rows[i] by {
        lemma_lookup(rows, i);
    }
}

/// A listing spells out the table that it lists, so it has one record for
/// each image of the table.
pub proof fn lemma_listing_is_table(out: Seq<RecordView>, table: Table)
    requires
        lists(out, table),
    ensures
        table_of(out) == table,
        table.dom().finite(),
        table.dom().len() == out.len(),
{
    assert forall|image: Seq<char>| table_of(out).contains_key(image) implies table.contains_key(
        image,
    ) && table[image] == table_of(out)[image] by {
        let j = images(out).index_of(image);
        assert(out[j].image == image);
        lemma_lookup(out, j);
    }
    assert(table_of(out) =~= table);
    lemma_count(out);
}

/// Writing records of different images to an empty table gives the table
/// that the records spell out.
pub proof fn lemma_written_distinct(rows: Seq<RecordView>)
    requires
        one_per_image(rows),
    ensures
        written(Map::empty(), rows) == table_of(rows),
    decreases rows.len(),
{
    if rows.len() == 0 {
        assert(table_of(rows) =~= Map::<Seq<char>, RecordView>::empty());
    } else {
        let init = rows.drop_last();
        let last = rows.last();
        let keys = images(rows);
        assert forall|a: int, b: int|
            0 <= a < init.len() && 0 <= b < init.len() && a != b implies images(init)[a] != images(
            init,
        )[b] by {
            assert(images(init)[a] == keys[a]);
            assert(images(init)[b] == keys[b]);
        }
        if images(init).contains(last.image) {
            let j = images(init).index_of(last.image);
            assert(keys[j] == images(init)[j]);
            assert(keys[rows.len() - 1] == last.image);
        }
        lemma_written_distinct(init);
        lemma_insert(init, init.len() as int, last);
        assert(init.insert(init.len() as int, last) =~= rows);
    }
}

/// After two writes for one image, a listing holds one record of that
/// image, and it is the second one written.
pub proof fn lemma_second_write_wins(
    table: Table,
    first: RecordView,
    second: RecordView,
    out: Seq<RecordView>,
)
    requires
        first.image == second.image,
        lists(out, table.insert(first.image, first).insert(second.image, second)),
    ensures
        table.insert(first.image, first).insert(second.image, second) == table.insert(
            second.image,
            second,
        ),
        exists|i: int| 0 <= i < out.len() && out[i] == second,
        forall|i: int, j: int|
            0 <= i < out.len() && 0 <= j < out.len() && out[i].image == second.image
                && out[j].image == second.image ==> i == j,
{
    let twice = table.insert(first.image, first).insert(second.image, second);
    assert(twice =~= table.insert(second.image, second));
    assert(twice.contains_key(second.image));
    let at = images(out).index_of(second.image);
    assert(out[at].image == second.image);
    assert(out[at] == second);
    assert forall|i: int, j: int|
        0 <= i < out.len() && 0 <= j < out.len() && out[i].image == second.image && out[j].image
            == second.image implies i == j by {
        assert(images(out)[i] == images(out)[j]);
    }
}

/// Where the clock did not step back between two writes for one image, the
/// record kept for the image was written no earlier than the first write.
pub proof fn lemma_rewrite_not_earlier(table: Table, first: RecordView, second: RecordView)
    requires
        first.image == second.image,
        text_le(first.updated_at, second.updated_at),
    ensures
        text_le(
            first.updated_at,
            table.insert(first.image, first).insert(second.image, second)[first.image].updated_at,
        ),
{
}

/// After records of different images were written to an empty table, a
/// listing holds as many records as were written, each of them, newest
/// first.
pub proof fn lemma_distinct_writes_listed(rows: Seq<RecordView>, out: Seq<RecordView>)
    requires
        one_per_image(rows),
        lists(out, written(Map::empty(), rows)),
    ensures
        out.len() == rows.len(),
        newest_first(out),
        forall|i: int| 0 <= i < rows.len() ==> out.contains(#[trigger] rows[i]),
{
    lemma_written_distinct(rows);
    lemma_listing_is_table(out, table_of(rows));
    lemma_count(rows);
    assert forall|i: int| 0 <= i < rows.len() implies out.contains(#[trigger] rows[i]) by {
        lemma_lookup(rows, i);
        let j = images(out).index_of(rows[i].image);
        assert(out[j].image == rows[i].image);
    }
}

/// Deleting the record of an image that has none changes nothing: the
/// table, and so the number of records, stays as it was.
pub proof fn lemma_delete_absent(table: Table, image: Seq<char>)
    requires
        !table.contains_key(image),
    ensures
        table.remove(image) == table,
{
    assert(table.remove(image) =~= table);
}

} // verus!
