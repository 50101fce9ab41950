//! The ledger as a table for people to read.

use crate::util::text::{
    dashes, hex, hex_text, lemma_hex_length, lemma_utf8_not_shorter, pad_right, padded, repeated,
    texts,
};
use vstd::prelude::*;
use vstd::utf8::encode_utf8;

verus! {

/// The width of a column that holds a hash.
pub const HASH_WIDTH: usize = 32;

/// The least width of the column with the categories.
pub const LEAST_CATEGORY_WIDTH: usize = 8;

/// A record of the ledger: category, hash of the recipe, hash of the outcome.
pub type Record = (String, u128, u128);

/// The width of the column with the categories: that of the longest one in bytes.
pub open spec fn category_width(records: Seq<Record>) -> nat
    decreases records.len(),
{
    if records.len() == 0 {
        LEAST_CATEGORY_WIDTH as nat
    } else {
        let rest = category_width(records.drop_last());
        let length = encode_utf8(records.last().0@).len();
        if length > rest {
            length
        } else {
            rest
        }
    }
}

/// A line of the table.
pub open spec fn table_line(
    width: nat,
    category: Seq<char>,
    hash: Seq<char>,
    effective_hash: Seq<char>,
) -> Seq<char> {
    padded(category, width) + " "@ + padded(hash, HASH_WIDTH as nat) + " "@ + padded(
        effective_hash,
        HASH_WIDTH as nat,
    )
}

/// The lines of the table: the names of the columns, a ruler, and a line for each record.
pub open spec fn table_lines(records: Seq<Record>) -> Seq<Seq<char>> {
    let width = category_width(records);
    seq![
        table_line(width, "category"@, "input_hash"@, "effective_hash"@),
        repeated('-', width + 66),
    ] + records.map_values(
        |r: Record| table_line(width, r.0@, hex_text(r.1 as nat), hex_text(r.2 as nat)),
    )
}

fn find_category_width(records: &Vec<Record>) -> (r: usize)
    ensures
        r == category_width(records@),
{
    let mut width: usize = LEAST_CATEGORY_WIDTH;
    let mut i: usize = 0;
    while i < records.len()
        invariant
            0 <= i <= records@.len(),
            width == category_width(records@.take(i as int)),
        decreases records@.len() - i,
    {
        assert(records@.take(i + 1).drop_last() =~= records@.take(i as int));
        let length: usize = records[i].0.as_str().as_bytes().len();
        if length > width {
            width = length;
        }
        i = i + 1;
    }
    assert(records@.take(records@.len() as int) =~= records@);
    width
}

fn format_line(width: usize, category: &str, hash: &str, effective_hash: &str) -> (r: String)
    ensures
        r@ == table_line(width as nat, category@, hash@, effective_hash@),
{
    let mut line: String = pad_right(category, width);
    line.append(" ");
    line.append(pad_right(hash, HASH_WIDTH).as_str());
    line.append(" ");
    line.append(pad_right(effective_hash, HASH_WIDTH).as_str());
    line
}

/// The lines of the table of the given records, as long as no category is longer than a line of
/// text can be.
pub fn format_ledger(records: &Vec<Record>) -> (r: Vec<String>)
    requires
        category_width(records@) + 66 <= usize::MAX,
    ensures
        texts(r@) == table_lines(records@),
{
    let width: usize = find_category_width(records);
    let mut lines: Vec<String> = Vec::new();
    lines.push(format_line(width, "category", "input_hash", "effective_hash"));
    lines.push(dashes(width + 66));
    let ghost head = texts(lines@);
    let ghost body = records@.map_values(
        |r: Record| table_line(width as nat, r.0@, hex_text(r.1 as nat), hex_text(r.2 as nat)),
    );
    let mut i: usize = 0;
    assert(texts(lines@) =~= head + body.take(0));
    while i < records.len()
        invariant
            0 <= i <= records@.len(),
            body == records@.map_values(
                |r: Record|
                    table_line(width as nat, r.0@, hex_text(r.1 as nat), hex_text(r.2 as nat)),
            ),
            texts(lines@) == head + body.take(i as int),
        decreases records@.len() - i,
    {
        let ghost before = texts(lines@);
        let line: String = format_line(
            width,
            records[i].0.as_str(),
            hex(records[i].1).as_str(),
            hex(records[i].2).as_str(),
        );
        let ghost text = line@;
        lines.push(line);
        assert(texts(lines@) =~= before.push(text));
        assert(head + body.take(i + 1) =~= (head + body.take(i as int)).push(body[i as int]));
        i = i + 1;
    }
    assert(body.take(i as int) =~= body);
    assert(texts(lines@) =~= table_lines(records@));
    lines
}

// ---------------------------------------------------------------------------
// Laws
// ---------------------------------------------------------------------------

proof fn lemma_category_width(records: Seq<Record>, i: int)
    requires
        0 <= i < records.len(),
    ensures
        encode_utf8(records[i].0@).len() <= category_width(records),
    decreases records.len(),
{
    if i < records.len() - 1 {
        lemma_category_width(records.drop_last(), i);
        assert(records.drop_last()[i] == records[i]);
    }
}

proof fn lemma_least_width(records: Seq<Record>)
    ensures
        LEAST_CATEGORY_WIDTH <= category_width(records),
    decreases records.len(),
{
    if records.len() > 0 {
        lemma_least_width(records.drop_last());
    }
}

/// All lines of the table are as long as its ruler, so that the columns stand under each other.
pub proof fn lemma_lines_are_aligned(records: Seq<Record>, i: int)
    requires
        0 <= i < table_lines(records).len(),
    ensures
        table_lines(records)[i].len() == category_width(records) + 66,
{
    lemma_least_width(records);
    reveal_strlit("category");
    reveal_strlit("input_hash");
    reveal_strlit("effective_hash");
    reveal_strlit(" ");
    if i >= 2 {
        let record = records[i - 2];
        lemma_category_width(records, i - 2);
        lemma_utf8_not_shorter(record.0@);
        lemma_hex_length(record.1);
        lemma_hex_length(record.2);
    }
}

} // verus!
