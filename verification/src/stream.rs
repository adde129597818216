//! Streaming adapter: apply the line parser to each line of a byte buffer,
//! one pull at a time.
//!
//! Lines end at a newline byte, a carriage return just before the newline is
//! dropped, and a line that is not valid UTF-8 yields the wrapped read
//! failure instead of a record.  End of input yields no further items, and a
//! failed line does not end the stream.

use vstd::prelude::*;

use vstd::utf8::decode_utf8;
use vstd::utf8::valid_utf8;

use crate::error::ErrModel;
use crate::error::LineError;
use crate::error::err_view;
use crate::record::EntryModel;
use crate::record::MountEntry;
use crate::record::parse_line_spec;

verus! {

/// Position of the first newline byte at or after `pos`, or the end of the
/// data.
pub open spec fn line_end(data: Seq<u8>, pos: int) -> int
    decreases data.len() - pos,
{
    if pos < 0 || pos >= data.len() {
        data.len() as int
    } else if data[pos] == 10 {
        pos
    } else {
        line_end(data, pos + 1)
    }
}

pub proof fn lemma_line_end_bounds(data: Seq<u8>, pos: int)
    requires
        0 <= pos <= data.len(),
    ensures
        pos <= line_end(data, pos) <= data.len(),
        line_end(data, pos) < data.len() ==> data[line_end(data, pos)] == 10,
        forall|m: int| pos <= m < line_end(data, pos) ==> data[m] != 10,
    decreases data.len() - pos,
{
    if pos < data.len() && data[pos] != 10 {
        lemma_line_end_bounds(data, pos + 1);
    }
}

/// Drop one final carriage return, as the line reader does before handing a
/// newline-terminated line on.
pub open spec fn chomp_cr(l: Seq<u8>) -> Seq<u8> {
    if l.len() > 0 && l.last() == 13 {
        l.drop_last()
    } else {
        l
    }
}

/// The bytes of the line that starts at `pos`: everything up to the next
/// newline, with a final carriage return dropped only when that newline was
/// found.
pub open spec fn raw_line_at(data: Seq<u8>, pos: int) -> Seq<u8> {
    if line_end(data, pos) < data.len() {
        chomp_cr(data.subrange(pos, line_end(data, pos)))
    } else {
        data.subrange(pos, line_end(data, pos))
    }
}

/// Position of the line after the one that starts at `pos`.
pub open spec fn next_pos(data: Seq<u8>, pos: int) -> int {
    if line_end(data, pos) < data.len() {
        line_end(data, pos) + 1
    } else {
        data.len() as int
    }
}

/// One item of the stream.
pub ghost enum ItemModel {
    /// The line parsed to this record.
    Entry(EntryModel),
    /// The line failed to parse with this failure.
    ParseFail(ErrModel),
    /// The line was not valid UTF-8, so reading it fails.
    BadUtf8,
}

pub open spec fn item_at(data: Seq<u8>, pos: int) -> ItemModel {
    if valid_utf8(raw_line_at(data, pos)) {
        match parse_line_spec(decode_utf8(raw_line_at(data, pos))) {
            Ok(m) => ItemModel::Entry(m),
            Err(e) => ItemModel::ParseFail(e),
        }
    } else {
        ItemModel::BadUtf8
    }
}

/// The whole stream of items from position `pos` on, one per line.
pub open spec fn stream_model(data: Seq<u8>, pos: int) -> Seq<ItemModel>
    decreases data.len() - pos,
        via stream_model_decreases
{
    if pos < 0 || pos >= data.len() {
        Seq::empty()
    } else {
        seq![item_at(data, pos)] + stream_model(data, next_pos(data, pos))
    }
}

#[via_fn]
proof fn stream_model_decreases(data: Seq<u8>, pos: int) {
    if 0 <= pos < data.len() {
        lemma_line_end_bounds(data, pos);
    }
}

/// The result `r` is the one that the stream item `m` requires.
pub open spec fn item_res_ok(m: ItemModel, r: Result<MountEntry, LineError>) -> bool {
    match m {
        ItemModel::Entry(em) => r matches Ok(e) && e@ == em,
        ItemModel::ParseFail(ee) => r matches Err(e) && err_view(e) == ee,
        ItemModel::BadUtf8 => r matches Err(e) && e matches LineError::IoError(_),
    }
}

/// Pull-based sequence of parse results over a byte buffer, one result per
/// line.
pub struct MountInfoParser {
    data: Vec<u8>,
    pos: usize,
}

/// Relies on `core::str::from_utf8`: it accepts exactly the valid UTF-8 byte
/// sequences and yields the characters those bytes encode.
#[verifier::external_body]
fn utf8_to_string(bytes: &[u8]) -> (r: Option<String>)
    ensures
        r is Some <==> valid_utf8(bytes@),
        r matches Some(s) ==> s@ == decode_utf8(bytes@),
{
    match core::str::from_utf8(bytes) {
        Ok(s) => Some(s.to_owned()),
        Err(_) => None,
    }
}

/// Relies on `std::io::ErrorKind::InvalidData` being the kind that a line
/// read reports for bytes that are not valid UTF-8; nothing is assumed about
/// the value.
#[verifier::external_body]
fn invalid_data_kind() -> std::io::ErrorKind {
    std::io::ErrorKind::InvalidData
}

fn find_newline(data: &Vec<u8>, from: usize) -> (r: usize)
    requires
        from <= data@.len(),
    ensures
        r as int == line_end(data@, from as int),
        from <= r <= data@.len(),
{
    let mut j = from;
    while j < data.len()
        invariant
            from <= j <= data@.len(),
            line_end(data@, from as int) == line_end(data@, j as int),
        decreases data@.len() - j,
    {
        if data[j] == 10 {
            return j;
        }
        j = j + 1;
    }
    j
}

impl MountInfoParser {
    pub closed spec fn bytes(&self) -> Seq<u8> {
        self.data@
    }

    pub closed spec fn cursor(&self) -> int {
        self.pos as int
    }

    pub closed spec fn wf(&self) -> bool {
        self.pos <= self.data@.len()
    }

    /// The stream items still to be pulled.
    pub open spec fn remaining(&self) -> Seq<ItemModel> {
        stream_model(self.bytes(), self.cursor())
    }

    /// Pull the parse result for the next line, or `None` at end of input.
    #[verifier::loop_isolation(false)]
    pub fn next_entry(&mut self) -> (r: Option<Result<MountEntry, LineError>>)
        requires
            old(self).wf(),
        ensures
            final(self).wf(),
            final(self).bytes() == old(self).bytes(),
            old(self).cursor() >= old(self).bytes().len() ==> r is None && final(self).cursor()
                == old(self).cursor() && old(self).remaining() == Seq::<ItemModel>::empty(),
            old(self).cursor() < old(self).bytes().len() ==> final(self).cursor() == next_pos(
                old(self).bytes(),
                old(self).cursor(),
            ) && (r matches Some(item) && item_res_ok(
                item_at(old(self).bytes(), old(self).cursor()),
                item,
            )) && old(self).remaining() == seq![item_at(old(self).bytes(), old(self).cursor())]
                + final(self).remaining(),
    {
        if self.pos >= self.data.len() {
            return None;
        }
        let start = self.pos;
        let e = find_newline(&self.data, start);
        let newline_found = e < self.data.len();
        let end2 = if newline_found && e > start && self.data[e - 1] == 13 {
            e - 1
        } else {
            e
        };
        proof {
            lemma_line_end_bounds(self.data@, start as int);
            assert(self.data@.subrange(start as int, end2 as int) =~= raw_line_at(
                self.data@,
                start as int,
            ));
        }
        let sl = vstd::slice::slice_subrange(self.data.as_slice(), start, end2);
        let decoded = utf8_to_string(sl);
        if newline_found {
            self.pos = e + 1;
        } else {
            self.pos = self.data.len();
        }
        match decoded {
            Some(s) => Some(MountEntry::from_str(s.as_str())),
            None => Some(Err(LineError::IoError(invalid_data_kind()))),
        }
    }
}

pub proof fn lemma_line_end_at(data: Seq<u8>, pos: int, j: int)
    requires
        0 <= pos <= j <= data.len(),
        forall|m: int| pos <= m < j ==> data[m] != 10,
        j == data.len() || data[j] == 10,
    ensures
        line_end(data, pos) == j,
    decreases j - pos,
{
    if pos < j {
        lemma_line_end_at(data, pos + 1, j);
    }
}

/// Streaming two lines, the first of which parses and the second of which
/// is malformed, yields exactly two items: the record, then that parse
/// failure — nothing skipped, nothing merged.
pub proof fn lemma_stream_two_lines(l1: Seq<u8>, l2: Seq<u8>)
    requires
        forall|i: int| 0 <= i < l1.len() ==> l1[i] != 10,
        forall|i: int| 0 <= i < l2.len() ==> l2[i] != 10,
        l2.len() > 0,
        valid_utf8(chomp_cr(l1)),
        parse_line_spec(decode_utf8(chomp_cr(l1))) is Ok,
        valid_utf8(l2),
        parse_line_spec(decode_utf8(l2)) is Err,
    ensures
        stream_model(l1 + seq![10u8] + l2, 0) == seq![
            ItemModel::Entry(parse_line_spec(decode_utf8(chomp_cr(l1)))->Ok_0),
            ItemModel::ParseFail(parse_line_spec(decode_utf8(l2))->Err_0),
        ],
{
    let data = l1 + seq![10u8] + l2;
    let n1 = l1.len() as int;
    assert(data[n1] == 10);
    assert(forall|m: int| 0 <= m < n1 ==> data[m] == l1[m]);
    lemma_line_end_at(data, 0, n1);
    assert(data.subrange(0, n1) =~= l1);
    assert(raw_line_at(data, 0) == chomp_cr(l1));
    assert(item_at(data, 0) == ItemModel::Entry(parse_line_spec(decode_utf8(chomp_cr(l1)))->Ok_0));
    let p2 = n1 + 1;
    assert(forall|m: int| p2 <= m < data.len() ==> data[m] == l2[m - p2]);
    lemma_line_end_at(data, p2, data.len() as int);
    assert(data.subrange(p2, data.len() as int) =~= l2);
    assert(raw_line_at(data, p2) == l2);
    assert(item_at(data, p2) == ItemModel::ParseFail(parse_line_spec(decode_utf8(l2))->Err_0));
    assert(next_pos(data, 0) == p2);
    assert(next_pos(data, p2) == data.len() as int);
    assert(p2 < data.len());
    assert(stream_model(data, data.len() as int) =~= Seq::<ItemModel>::empty());
    assert(stream_model(data, p2) == seq![item_at(data, p2)] + stream_model(
        data,
        data.len() as int,
    ));
    assert(stream_model(data, p2) =~= seq![item_at(data, p2)]);
    assert(stream_model(data, 0) == seq![item_at(data, 0)] + stream_model(data, p2));
    assert(stream_model(data, 0) =~= seq![
        ItemModel::Entry(parse_line_spec(decode_utf8(chomp_cr(l1)))->Ok_0),
        ItemModel::ParseFail(parse_line_spec(decode_utf8(l2))->Err_0),
    ]);
}

/// Begin streaming the given bytes, one mount-table line per item.
pub fn parse_mountinfo(data: Vec<u8>) -> (p: MountInfoParser)
    ensures
        p.wf(),
        p.bytes() == data@,
        p.cursor() == 0,
{
    MountInfoParser { data, pos: 0 }
}

} // verus!
