//! Wire framing: fields are text tokens, each followed by exactly one
//! terminator byte.  A read batch is split on the terminator into fields;
//! empty tokens produced by consecutive terminators are discarded.
use vstd::prelude::*;

use crate::constants::FIELD_TERMINATOR;

verus! {

/// Whether the byte sequence holds a terminator anywhere.
pub open spec fn contains_terminator(s: Seq<u8>) -> bool {
    exists|i: int| 0 <= i < s.len() && s[i] == FIELD_TERMINATOR
}

/// Index of the first terminator byte, or `s.len()` if there is none.
pub open spec fn first_terminator(s: Seq<u8>) -> int
    decreases s.len(),
{
    if s.len() == 0 {
        0
    } else if s[0] == FIELD_TERMINATOR {
        0
    } else {
        1 + first_terminator(s.skip(1))
    }
}

pub proof fn lemma_first_terminator(s: Seq<u8>)
    ensures
        0 <= first_terminator(s) <= s.len(),
        first_terminator(s) < s.len() ==> s[first_terminator(s)] == FIELD_TERMINATOR,
        forall|i: int| 0 <= i < first_terminator(s) ==> s[i] != FIELD_TERMINATOR,
        first_terminator(s) == s.len() ==> !contains_terminator(s),
    decreases s.len(),
{
    if s.len() > 0 && s[0] != FIELD_TERMINATOR {
        lemma_first_terminator(s.skip(1));
        assert forall|i: int| 0 <= i < first_terminator(s) implies s[i] != FIELD_TERMINATOR by {
            if i > 0 {
                assert(s.skip(1)[i - 1] == s[i]);
            }
        }
        if first_terminator(s) == s.len() {
            assert forall|i: int| 0 <= i < s.len() implies s[i] != FIELD_TERMINATOR by {
                if i > 0 {
                    assert(s.skip(1)[i - 1] == s[i]);
                }
            }
        }
    }
}

/// The first terminator of a sequence is the least terminator index.
pub proof fn lemma_first_terminator_is(s: Seq<u8>, m: int)
    requires
        0 <= m < s.len(),
        s[m] == FIELD_TERMINATOR,
        forall|i: int| 0 <= i < m ==> s[i] != FIELD_TERMINATOR,
    ensures
        first_terminator(s) == m,
{
    lemma_first_terminator(s);
    let f = first_terminator(s);
    if f < m {
        assert(s[f] == FIELD_TERMINATOR);
    } else if f > m {
        assert(s[m] != FIELD_TERMINATOR);
    }
}

/// The encoding of a field sequence: each field's bytes followed by one
/// terminator, in order.
pub open spec fn encode_fields(fields: Seq<Seq<u8>>) -> Seq<u8>
    decreases fields.len(),
{
    if fields.len() == 0 {
        Seq::empty()
    } else {
        fields[0] + seq![FIELD_TERMINATOR] + encode_fields(fields.skip(1))
    }
}

/// Splitting a batch on the terminator into fields, discarding the empty
/// tokens that consecutive terminators (or a leading terminator) produce.
/// Bytes after the last terminator form one trailing (ill-framed) token.
pub open spec fn split_fields(data: Seq<u8>) -> Seq<Seq<u8>>
    decreases data.len(),
    via split_fields_decreases
{
    if data.len() == 0 {
        Seq::empty()
    } else {
        let i = first_terminator(data);
        if i == 0 {
            split_fields(data.skip(1))
        } else if i == data.len() {
            seq![data]
        } else {
            seq![data.take(i)] + split_fields(data.skip(i + 1))
        }
    }
}

#[via_fn]
proof fn split_fields_decreases(data: Seq<u8>) {
    lemma_first_terminator(data);
}

/// A field as the transport may hold it: non-empty, no terminator inside.
pub open spec fn wf_field(f: Seq<u8>) -> bool {
    f.len() > 0 && !contains_terminator(f)
}

/// Every field that splitting a well-framed batch yields is non-empty and
/// holds no terminator byte.
pub proof fn lemma_split_fields_wellformed(data: Seq<u8>)
    requires
        data.len() > 0,
        data.last() == FIELD_TERMINATOR,
    ensures
        forall|k: int| 0 <= k < split_fields(data).len()
            ==> wf_field(#[trigger] split_fields(data)[k]),
    decreases data.len(),
{
    lemma_first_terminator(data);
    let i = first_terminator(data);
    if i == data.len() {
        assert(data[data.len() - 1] == FIELD_TERMINATOR);
    }
    if i == 0 {
        let rest = data.skip(1);
        if rest.len() > 0 {
            assert(rest.last() == data.last());
            lemma_split_fields_wellformed(rest);
        }
        assert forall|k: int| 0 <= k < split_fields(data).len()
            implies wf_field(#[trigger] split_fields(data)[k]) by {
            assert(split_fields(data)[k] == split_fields(rest)[k]);
        }
    } else {
        let piece = data.take(i);
        assert forall|j: int| 0 <= j < piece.len() implies piece[j] != FIELD_TERMINATOR by {
            assert(piece[j] == data[j]);
        }
        assert(wf_field(piece));
        let rest = data.skip(i + 1);
        if rest.len() > 0 {
            assert(rest.last() == data.last());
            lemma_split_fields_wellformed(rest);
        }
        assert forall|k: int| 0 <= k < split_fields(data).len()
            implies wf_field(#[trigger] split_fields(data)[k]) by {
            if k == 0 {
                assert(split_fields(data)[k] == piece);
            } else {
                assert(split_fields(data)[k] == split_fields(rest)[k - 1]);
            }
        }
    }
}

proof fn lemma_first_terminator_of_encoded(field: Seq<u8>, rest: Seq<u8>)
    requires
        !contains_terminator(field),
    ensures
        first_terminator(field + seq![FIELD_TERMINATOR] + rest) == field.len(),
{
    let data = field + seq![FIELD_TERMINATOR] + rest;
    assert(data[field.len() as int] == FIELD_TERMINATOR);
    assert forall|i: int| 0 <= i < field.len() implies data[i] != FIELD_TERMINATOR by {
        assert(data[i] == field[i]);
    }
    lemma_first_terminator_is(data, field.len() as int);
}

/// Round trip: encoding any sequence of non-empty, terminator-free fields
/// and splitting the result on the terminator reproduces the sequence
/// exactly.  (An empty field is dropped by the split, so it is left out.)
pub proof fn lemma_encode_then_split_roundtrip(fields: Seq<Seq<u8>>)
    requires
        forall|k: int| 0 <= k < fields.len() ==> (#[trigger] fields[k]).len() > 0,
        forall|k: int| 0 <= k < fields.len() ==> !contains_terminator(#[trigger] fields[k]),
    ensures
        split_fields(encode_fields(fields)) =~~= fields,
    decreases fields.len(),
{
    if fields.len() > 0 {
        let f0 = fields[0];
        let rest = encode_fields(fields.skip(1));
        let data = f0 + seq![FIELD_TERMINATOR] + rest;
        lemma_first_terminator_of_encoded(f0, rest);
        let i = first_terminator(data);
        assert(i == f0.len());
        assert(data.take(i) =~= f0);
        assert(data.skip(i + 1) =~= rest);
        lemma_encode_then_split_roundtrip(fields.skip(1));
        if i == data.len() {
            // impossible: the terminator after f0 lies inside data
            assert(data[f0.len() as int] == FIELD_TERMINATOR);
        }
        assert(split_fields(data) =~~= seq![f0] + split_fields(rest));
        assert(seq![f0] + fields.skip(1) =~~= fields);
    }
}

/// Splits a well-framed read batch (one whose final byte is the
/// terminator) into its non-empty fields, in arrival order.
pub fn split_terminated(data: &[u8]) -> (fields: Vec<Vec<u8>>)
    requires
        data@.len() > 0,
        data@.last() == FIELD_TERMINATOR,
    ensures
        fields.deep_view() =~~= split_fields(data@),
{
    let mut fields: Vec<Vec<u8>> = Vec::new();
    let mut pos: usize = 0;
    proof {
        assert(data@.skip(0) =~= data@);
        assert(fields.deep_view() + split_fields(data@) =~~= split_fields(data@));
    }
    while pos < data.len()
        invariant
            pos <= data@.len(),
            data@.len() > 0,
            data@.last() == FIELD_TERMINATOR,
            split_fields(data@) =~~= fields.deep_view() + split_fields(data@.skip(pos as int)),
        decreases data@.len() - pos,
    {
        let ghost pos0 = pos as int;
        let mut piece: Vec<u8> = Vec::new();
        let mut j: usize = pos;
        while data[j] != FIELD_TERMINATOR
            invariant
                pos <= j < data@.len(),
                data@.len() > 0,
                data@.last() == FIELD_TERMINATOR,
                piece@ =~= data@.subrange(pos as int, j as int),
                forall|k: int| pos <= k < j ==> data@[k] != FIELD_TERMINATOR,
            decreases data@.len() - j,
        {
            piece.push(data[j]);
            assert(piece@ =~= data@.subrange(pos as int, j + 1));
            j = j + 1;
        }
        proof {
            let tail = data@.skip(pos0);
            assert(tail[j - pos0] == data@[j as int]);
            assert forall|k: int| 0 <= k < j - pos0 implies tail[k] != FIELD_TERMINATOR by {
                assert(tail[k] == data@[pos0 + k]);
            }
            lemma_first_terminator_is(tail, j - pos0);
            if j > pos {
                assert(tail.take(j - pos0) =~= data@.subrange(pos0, j as int));
                assert(tail.skip(j - pos0 + 1) =~= data@.skip(j + 1));
            } else {
                assert(tail.skip(1) =~= data@.skip(j + 1));
            }
        }
        if piece.len() > 0 {
            let ghost before = fields.deep_view();
            fields.push(piece);
            assert(fields.deep_view() =~~= before + seq![data@.subrange(pos0, j as int)]);
        }
        pos = j + 1;
    }
    proof {
        assert(data@.skip(pos as int) =~= Seq::<u8>::empty());
        assert(fields.deep_view() + Seq::<Seq<u8>>::empty() =~~= fields.deep_view());
    }
    fields
}

} // verus!
