//! Diff statistics and their rendering as comma-separated text.

use vstd::prelude::*;
use vstd::slice::slice_to_vec;
use vstd::utf8::{encode_utf8, is_ascii_chars, is_ascii_chars_encode_utf8};

verus! {

/// Insertion and deletion counts of one commit against its predecessor.
#[derive(Clone, Debug, PartialEq, Eq)]
pub struct DiffStat {
    pub commit_id: String,
    pub insertions: usize,
    pub deletions: usize,
}

/// The bytes of one record written by a default `csv::Writer` for `fields`.
pub uninterp spec fn csv_record_of(fields: Seq<Seq<u8>>) -> Seq<u8>;

/// A field that a default writer leaves unquoted: not empty, and without a
/// comma, a double quote, a carriage return or a line feed.
pub open spec fn plain_field(f: Seq<u8>) -> bool {
    &&& f.len() > 0
    &&& forall|i: int| 0 <= i < f.len() ==> #[trigger] f[i] != 44u8 && f[i] != 34u8 && f[i] != 13u8 && f[i] != 10u8
}

/// `fields` joined by commas.
pub open spec fn joined(fields: Seq<Seq<u8>>) -> Seq<u8>
    decreases fields.len(),
{
    if fields.len() == 0 {
        Seq::empty()
    } else if fields.len() == 1 {
        fields[0]
    } else {
        joined(fields.drop_last()).push(44u8) + fields.last()
    }
}

/// Whether every field is plain.
pub open spec fn plain_fields(fields: Seq<Seq<u8>>) -> bool {
    forall|i: int| 0 <= i < fields.len() ==> #[trigger] plain_field(fields[i])
}

/// One record: plain fields are joined by commas and ended by a line feed;
/// other records are as the writer quotes them.
pub open spec fn record_of(fields: Seq<Seq<u8>>) -> Seq<u8> {
    if plain_fields(fields) {
        joined(fields).push(10u8)
    } else {
        csv_record_of(fields)
    }
}

/// Relies on `csv::Writer::write_record` and `csv::Writer::into_inner` on a new
/// default writer into a `Vec`: both fail only when the inner writer does, or
/// on a record whose length differs from an earlier one, so a single record
/// into memory always succeeds. A field is quoted only when it is empty or
/// holds a delimiter, quote or line break byte; the terminator is `\n`.
#[verifier::external_body]
fn encode_record(fields: &Vec<Vec<u8>>) -> (r: Option<Vec<u8>>)
    ensures
        r is Some,
        r matches Some(b) ==> plain_fields(fields@.map_values(|f: Vec<u8>| f@)) ==> b@ == joined(
            fields@.map_values(|f: Vec<u8>| f@),
        ).push(10u8),
        r matches Some(b) ==> !plain_fields(fields@.map_values(|f: Vec<u8>| f@)) ==> b@ == csv_record_of(
            fields@.map_values(|f: Vec<u8>| f@),
        ),
{
    let mut writer = csv::Writer::from_writer(Vec::new());
    writer.write_record(fields).ok()?;
    writer.into_inner().ok()
}

/// The decimal digits of `n` as ASCII bytes, most significant first, with no
/// sign and no leading zero.
pub open spec fn decimal(n: nat) -> Seq<u8>
    decreases n,
{
    if n < 10 {
        seq![(48 + n) as u8]
    } else {
        decimal(n / 10).push((48 + n % 10) as u8)
    }
}

/// ASCII decimal form of `n`.
pub fn decimal_bytes(n: usize) -> (r: Vec<u8>)
    ensures
        r@ == decimal(n as nat),
    decreases n,
{
    if n < 10 {
        let d: u8 = n as u8;
        vec![48u8 + d]
    } else {
        let mut r = decimal_bytes(n / 10);
        let d: u8 = (n % 10) as u8;
        r.push(48u8 + d);
        r
    }
}

/// The header fields, in column order.
pub open spec fn header_fields() -> Seq<Seq<u8>> {
    seq![encode_utf8("commit_id"@), encode_utf8("insertions"@), encode_utf8("deletions"@)]
}

/// The fields of one data row, in column order.
pub open spec fn row_fields(s: DiffStat) -> Seq<Seq<u8>> {
    seq![encode_utf8(s.commit_id@), decimal(s.insertions as nat), decimal(s.deletions as nat)]
}

/// The data rows for `stats`, one record each, in order.
pub open spec fn rows_text(stats: Seq<DiffStat>) -> Seq<u8>
    decreases stats.len(),
{
    if stats.len() == 0 {
        Seq::empty()
    } else {
        rows_text(stats.drop_last()) + record_of(row_fields(stats.last()))
    }
}

/// The whole table for `stats`: the header record, then one record per stat.
pub open spec fn csv_table(stats: Seq<DiffStat>) -> Seq<u8> {
    record_of(header_fields()) + rows_text(stats)
}

fn field_bytes(s: &str) -> (r: Vec<u8>)
    ensures
        r@ == encode_utf8(s@),
{
    slice_to_vec(s.as_bytes())
}

/// The ASCII bytes of `s`: its UTF-8 encoding when every character is ASCII.
pub open spec fn ascii_bytes(s: Seq<char>) -> Seq<u8> {
    s.map_values(|c: char| c as u8)
}

pub(crate) proof fn lemma_ascii_encoding(s: Seq<char>)
    requires
        is_ascii_chars(s),
    ensures
        encode_utf8(s) == ascii_bytes(s),
{
    is_ascii_chars_encode_utf8(s);
    assert(encode_utf8(s) =~= ascii_bytes(s));
}

/// A table with no stats is the header line alone:
/// `commit_id,insertions,deletions` and a line feed.
pub proof fn lemma_empty_table()
    ensures
        csv_table(Seq::empty()) == ascii_bytes("commit_id,insertions,deletions\n"@),
{
    reveal_strlit("commit_id");
    reveal_strlit("insertions");
    reveal_strlit("deletions");
    reveal_strlit("commit_id,insertions,deletions\n");
    lemma_ascii_encoding("commit_id"@);
    lemma_ascii_encoding("insertions"@);
    lemma_ascii_encoding("deletions"@);
    let h = header_fields();
    assert(plain_field(h[0]));
    assert(plain_field(h[1]));
    assert(plain_field(h[2]));
    assert(plain_fields(h));
    assert(h.drop_last().drop_last().drop_last().len() == 0);
    assert(h.drop_last().drop_last() =~= seq![h[0]]);
    assert(h.drop_last() =~= seq![h[0], h[1]]);
    assert(joined(h.drop_last().drop_last()) == h[0]);
    assert(joined(h.drop_last()) == h[0].push(44u8) + h[1]);
    assert(joined(h) == (h[0].push(44u8) + h[1]).push(44u8) + h[2]);
    assert(rows_text(Seq::<DiffStat>::empty()) == Seq::<u8>::empty());
    assert(h[0] =~= ascii_bytes("commit_id"@));
    assert(h[1] =~= ascii_bytes("insertions"@));
    assert(h[2] =~= ascii_bytes("deletions"@));
    assert(csv_table(Seq::empty()) =~= ascii_bytes("commit_id,insertions,deletions\n"@));
}

proof fn lemma_decimal_digits(n: nat)
    ensures
        decimal(n).len() > 0,
        forall|i: int| 0 <= i < decimal(n).len() ==> 48 <= #[trigger] decimal(n)[i] <= 57,
    decreases n,
{
    if n >= 10 {
        lemma_decimal_digits(n / 10);
    }
}

/// A stat whose id has no comma, quote or line break is written as the id,
/// the insertions and the deletions in decimal, separated by commas and ended
/// by a line feed.
pub proof fn lemma_row_line(s: DiffStat)
    requires
        plain_field(encode_utf8(s.commit_id@)),
    ensures
        record_of(row_fields(s)) == encode_utf8(s.commit_id@).push(44u8) + decimal(s.insertions as nat)
            .push(44u8) + decimal(s.deletions as nat) + seq![10u8],
{
    lemma_decimal_digits(s.insertions as nat);
    lemma_decimal_digits(s.deletions as nat);
    let f = row_fields(s);
    assert(plain_field(f[1]));
    assert(plain_field(f[2]));
    assert(plain_fields(f));
    assert(f.drop_last().drop_last() =~= seq![f[0]]);
    assert(f.drop_last() =~= seq![f[0], f[1]]);
    assert(joined(f.drop_last().drop_last()) == f[0]);
    assert(joined(f.drop_last()) == f[0].push(44u8) + f[1]);
    assert(joined(f) == (f[0].push(44u8) + f[1]).push(44u8) + f[2]);
    assert(record_of(f) =~= encode_utf8(s.commit_id@).push(44u8) + decimal(s.insertions as nat)
        .push(44u8) + decimal(s.deletions as nat) + seq![10u8]);
}

/// Writes `stats` as a table: header `commit_id,insertions,deletions`, then one
/// row per stat in the given order.
pub fn render_stats(stats: &Vec<DiffStat>) -> (r: Vec<u8>)
    ensures
        r@ == csv_table(stats@),
{
    let header = vec![field_bytes("commit_id"), field_bytes("insertions"), field_bytes("deletions")];
    assert(header@.map_values(|f: Vec<u8>| f@) =~= header_fields());
    let mut out = encode_record(&header).unwrap();
    let mut i: usize = 0;
    while i < stats.len()
        invariant
            i <= stats@.len(),
            out@ == record_of(header_fields()) + rows_text(stats@.take(i as int)),
        decreases stats@.len() - i,
    {
        let s = &stats[i];
        let fields = vec![field_bytes(s.commit_id.as_str()), decimal_bytes(s.insertions), decimal_bytes(s.deletions)];
        assert(fields@.map_values(|f: Vec<u8>| f@) =~= row_fields(stats@[i as int]));
        let mut rec = encode_record(&fields).unwrap();
        assert(stats@.take(i + 1).drop_last() =~= stats@.take(i as int));
        out.append(&mut rec);
        i = i + 1;
        proof {
            assert(out@ =~= record_of(header_fields()) + rows_text(stats@.take(i as int)));
        }
    }
    assert(stats@.take(stats@.len() as int) =~= stats@);
    out
}

} // verus!
