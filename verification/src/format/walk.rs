//! Walking a sequence of chunks and nested forms: an item whose first four bytes are
//! the RFRM magic is a form, any other a chunk.
use vstd::prelude::*;
use crate::format::{FormatError, four_cc_value, peek_four_cc, spec_four_cc_at};
use crate::format::chunk::{ChunkDescriptor, chunk_fits, chunk_fits_check, chunk_slice_view, spec_chunk_slice};
use crate::format::rfrm::{FormDescriptor, K_CHUNK_RFRM, form_fits, form_slice_view, spec_form_slice};
use crate::util::read::Endian;

verus! {

/// The header of an item of a chunk sequence.
#[derive(Copy, Clone, Debug)]
pub enum ItemHeader {
    Chunk(ChunkDescriptor),
    Form(FormDescriptor),
}

/// The item at the start of `s`: a form when its first four bytes are the RFRM
/// magic, else a chunk; with the item's data and what follows it.
pub open spec fn spec_next_item(s: Seq<u8>, e: Endian) -> Result<(ItemHeader, Seq<u8>, Seq<u8>), FormatError> {
    if four_cc_value(spec_four_cc_at(s, 0).0) == K_CHUNK_RFRM {
        match spec_form_slice(s, e) {
            Ok((h, b, r)) => Ok((ItemHeader::Form(h), b, r)),
            Err(x) => Err(x),
        }
    } else {
        match spec_chunk_slice(s, e) {
            Ok((h, b, r)) => Ok((ItemHeader::Chunk(h), b, r)),
            Err(x) => Err(x),
        }
    }
}

/// The item at the start of `s` lies inside `s` (which holds at least its code).
pub open spec fn item_fits(s: Seq<u8>, e: Endian) -> bool {
    &&& s.len() >= 4
    &&& if four_cc_value(spec_four_cc_at(s, 0).0) == K_CHUNK_RFRM {
        form_fits(s, e)
    } else {
        chunk_fits(s, e)
    }
}

pub open spec fn item_view(r: Result<(ItemHeader, &[u8], &[u8]), FormatError>) -> Result<
    (ItemHeader, Seq<u8>, Seq<u8>),
    FormatError,
> {
    match r {
        Ok((h, b, rest)) => Ok((h, b@, rest@)),
        Err(x) => Err(x),
    }
}

/// Splits off the item at the start of `data` (see `spec_next_item`).
pub fn next_item(data: &[u8], e: Endian) -> (r: Result<(ItemHeader, &[u8], &[u8]), FormatError>)
    requires
        item_fits(data@, e),
    ensures
        item_view(r) == spec_next_item(data@, e),
{
    if peek_four_cc(data).as_u32() == K_CHUNK_RFRM {
        let (h, b, rest) = FormDescriptor::slice(data, e)?;
        Ok((ItemHeader::Form(h), b, rest))
    } else {
        let (h, b, rest) = ChunkDescriptor::slice(data, e)?;
        Ok((ItemHeader::Chunk(h), b, rest))
    }
}

/// The items of the sequence `s`, in order, each with its data.
#[verifier::opaque]
pub open spec fn spec_items(s: Seq<u8>, e: Endian) -> Result<Seq<(ItemHeader, Seq<u8>)>, FormatError>
    decreases s.len(),
{
    if s.len() == 0 {
        Ok(Seq::empty())
    } else {
        match spec_next_item(s, e) {
            Err(x) => Err(x),
            Ok((h, b, r)) => if r.len() < s.len() {
                match spec_items(r, e) {
                    Err(x) => Err(x),
                    Ok(l) => Ok(seq![(h, b)] + l),
                }
            } else {
                Err(FormatError::InvalidChunkHeader)
            },
        }
    }
}

/// Every item that walking the sequence `s` reaches lies inside its bytes.
#[verifier::opaque]
pub open spec fn items_fit(s: Seq<u8>, e: Endian) -> bool
    decreases s.len(),
{
    s.len() > 0 ==> {
        &&& item_fits(s, e)
        &&& (spec_next_item(s, e) matches Ok((_, _, r)) ==> (r.len() < s.len() ==> items_fit(r, e)))
    }
}

proof fn lemma_items(s: Seq<u8>, e: Endian)
    ensures
        s.len() == 0 ==> spec_items(s, e) == Ok::<Seq<(ItemHeader, Seq<u8>)>, FormatError>(Seq::empty()),
        s.len() > 0 ==> spec_items(s, e) == match spec_next_item(s, e) {
            Err(x) => Err(x),
            Ok((h, b, r)) => if r.len() < s.len() {
                match spec_items(r, e) {
                    Err(x) => Err(x),
                    Ok(l) => Ok(seq![(h, b)] + l),
                }
            } else {
                Err(FormatError::InvalidChunkHeader)
            },
        },
        items_fit(s, e) == (s.len() > 0 ==> {
            &&& item_fits(s, e)
            &&& (spec_next_item(s, e) matches Ok((_, _, r)) ==> (r.len() < s.len() ==> items_fit(r, e)))
        }),
{
    reveal(spec_items);
    reveal(items_fit);
}

pub open spec fn items_view(v: Seq<(ItemHeader, Vec<u8>)>) -> Seq<(ItemHeader, Seq<u8>)> {
    v.map_values(|x: (ItemHeader, Vec<u8>)| (x.0, x.1@))
}

/// The items of the sequence `data`, in order, each with a copy of its data (see
/// `spec_items`); the first item that cannot be split off stops the walk.
pub fn slice_chunks(data: &[u8], e: Endian) -> (r: Result<Vec<(ItemHeader, Vec<u8>)>, FormatError>)
    requires
        items_fit(data@, e),
    ensures
        match r {
            Ok(v) => spec_items(data@, e) == Ok::<_, FormatError>(items_view(v@)),
            Err(x) => spec_items(data@, e) == Err::<Seq<(ItemHeader, Seq<u8>)>, FormatError>(x),
        },
{
    let mut out: Vec<(ItemHeader, Vec<u8>)> = Vec::new();
    let mut s = data;
    while s.len() > 0
        invariant
            items_fit(s@, e),
            match spec_items(s@, e) {
                Ok(l) => spec_items(data@, e) == Ok::<_, FormatError>(items_view(out@) + l),
                Err(x) => spec_items(data@, e) == Err::<Seq<(ItemHeader, Seq<u8>)>, FormatError>(x),
            },
        decreases s@.len(),
    {
        proof {
            lemma_items(s@, e);
        }
        let (h, b, rest) = next_item(s, e)?;
        if rest.len() >= s.len() {
            return Err(FormatError::InvalidChunkHeader);
        }
        let ghost before = out@;
        out.push((h, vstd::slice::slice_to_vec(b)));
        proof {
            assert(items_view(out@) =~= items_view(before) + seq![(h, b@)]);
            match spec_items(rest@, e) {
                Ok(l) => {
                    assert(items_view(before) + (seq![(h, b@)] + l) =~= items_view(out@) + l);
                },
                Err(_) => {},
            }
        }
        s = rest;
    }
    proof {
        lemma_items(s@, e);
        assert(items_view(out@) + Seq::<(ItemHeader, Seq<u8>)>::empty() =~= items_view(out@));
    }
    Ok(out)
}

/// Walks the item sequence `s` from the state `st`, handing each item (header and
/// data) to `step` in order; the first failure, of splitting off an item or of a step,
/// stops the walk.
#[verifier::opaque]
pub open spec fn walk_items<S>(
    s: Seq<u8>,
    e: Endian,
    st: S,
    step: spec_fn(S, ItemHeader, Seq<u8>) -> Result<S, FormatError>,
) -> Result<S, FormatError>
    decreases s.len(),
{
    if s.len() == 0 {
        Ok(st)
    } else {
        match spec_next_item(s, e) {
            Err(x) => Err(x),
            Ok((h, b, r)) => if r.len() < s.len() {
                match step(st, h, b) {
                    Err(x) => Err(x),
                    Ok(st2) => walk_items(r, e, st2, step),
                }
            } else {
                Err(FormatError::InvalidChunkHeader)
            },
        }
    }
}

/// Every item that walking `s` from `st` reaches lies inside its bytes, and `fits`
/// holds of each item handed to the step.
#[verifier::opaque]
pub open spec fn walk_fits<S>(
    s: Seq<u8>,
    e: Endian,
    st: S,
    step: spec_fn(S, ItemHeader, Seq<u8>) -> Result<S, FormatError>,
    fits: spec_fn(S, ItemHeader, Seq<u8>) -> bool,
) -> bool
    decreases s.len(),
{
    s.len() > 0 ==> {
        &&& item_fits(s, e)
        &&& (spec_next_item(s, e) matches Ok((h, b, r)) ==> (r.len() < s.len() ==> {
            &&& fits(st, h, b)
            &&& (step(st, h, b) matches Ok(st2) ==> walk_fits(r, e, st2, step, fits))
        }))
    }
}

/// One step of a walk.
pub proof fn lemma_walk_items<S>(
    s: Seq<u8>,
    e: Endian,
    st: S,
    step: spec_fn(S, ItemHeader, Seq<u8>) -> Result<S, FormatError>,
    fits: spec_fn(S, ItemHeader, Seq<u8>) -> bool,
)
    ensures
        s.len() == 0 ==> walk_items(s, e, st, step) == Ok::<S, FormatError>(st),
        s.len() > 0 ==> walk_items(s, e, st, step) == match spec_next_item(s, e) {
            Err(x) => Err(x),
            Ok((h, b, r)) => if r.len() < s.len() {
                match step(st, h, b) {
                    Err(x) => Err(x),
                    Ok(st2) => walk_items(r, e, st2, step),
                }
            } else {
                Err(FormatError::InvalidChunkHeader)
            },
        },
        walk_fits(s, e, st, step, fits) == (s.len() > 0 ==> {
            &&& item_fits(s, e)
            &&& (spec_next_item(s, e) matches Ok((h, b, r)) ==> (r.len() < s.len() ==> {
                &&& fits(st, h, b)
                &&& (step(st, h, b) matches Ok(st2) ==> walk_fits(r, e, st2, step, fits))
            }))
        }),
{
    reveal(walk_items);
    reveal(walk_fits);
}

/// Walks the chunk sequence `s` (every item taken as a chunk) from the state `st`,
/// handing each chunk (header and data) to `step` in order; the first failure, of
/// splitting off a chunk or of a step, stops the walk.
#[verifier::opaque]
pub open spec fn walk_chunk_seq<S>(
    s: Seq<u8>,
    e: Endian,
    st: S,
    step: spec_fn(S, ChunkDescriptor, Seq<u8>) -> Result<S, FormatError>,
) -> Result<S, FormatError>
    decreases s.len(),
{
    if s.len() == 0 {
        Ok(st)
    } else {
        match spec_chunk_slice(s, e) {
            Err(x) => Err(x),
            Ok((h, b, r)) => if r.len() < s.len() {
                match step(st, h, b) {
                    Err(x) => Err(x),
                    Ok(st2) => walk_chunk_seq(r, e, st2, step),
                }
            } else {
                Err(FormatError::InvalidChunkHeader)
            },
        }
    }
}

/// Every chunk that walking the chunk sequence `s` reaches lies inside its bytes.
#[verifier::opaque]
pub open spec fn chunk_seq_fits(s: Seq<u8>, e: Endian) -> bool
    decreases s.len(),
{
    s.len() > 0 ==> {
        &&& chunk_fits(s, e)
        &&& (spec_chunk_slice(s, e) matches Ok((_, _, r)) ==> (r.len() < s.len() ==> chunk_seq_fits(r, e)))
    }
}

/// One step of a chunk walk.
pub proof fn lemma_walk_chunk_seq<S>(
    s: Seq<u8>,
    e: Endian,
    st: S,
    step: spec_fn(S, ChunkDescriptor, Seq<u8>) -> Result<S, FormatError>,
)
    ensures
        s.len() == 0 ==> walk_chunk_seq(s, e, st, step) == Ok::<S, FormatError>(st),
        s.len() > 0 ==> walk_chunk_seq(s, e, st, step) == match spec_chunk_slice(s, e) {
            Err(x) => Err(x),
            Ok((h, b, r)) => if r.len() < s.len() {
                match step(st, h, b) {
                    Err(x) => Err(x),
                    Ok(st2) => walk_chunk_seq(r, e, st2, step),
                }
            } else {
                Err(FormatError::InvalidChunkHeader)
            },
        },
        chunk_seq_fits(s, e) == (s.len() > 0 ==> {
            &&& chunk_fits(s, e)
            &&& (spec_chunk_slice(s, e) matches Ok((_, _, r)) ==> (r.len() < s.len() ==> chunk_seq_fits(r, e)))
        }),
{
    reveal(walk_chunk_seq);
    reveal(chunk_seq_fits);
}

/// The walk that does nothing with the chunks.
pub open spec fn idle_step() -> spec_fn((), ChunkDescriptor, Seq<u8>) -> Result<(), FormatError> {
    |st: (), h: ChunkDescriptor, b: Seq<u8>| Ok::<(), FormatError>(st)
}

/// Whether every chunk that walking the chunk sequence `data` reaches lies inside it
/// (see `chunk_seq_fits`).
pub fn chunk_seq_fits_check(data: &[u8], e: Endian) -> (r: bool)
    ensures
        r == chunk_seq_fits(data@, e),
{
    let mut s = data;
    while s.len() > 0
        invariant
            chunk_seq_fits(data@, e) == chunk_seq_fits(s@, e),
        decreases s@.len(),
    {
        proof {
            lemma_walk_chunk_seq(s@, e, (), idle_step());
        }
        if !chunk_fits_check(s, e) {
            return false;
        }
        match ChunkDescriptor::slice(s, e) {
            Err(_) => {
                return true;
            },
            Ok((_, _, rest)) => {
                if rest.len() >= s.len() {
                    return true;
                }
                s = rest;
            },
        }
    }
    proof {
        lemma_walk_chunk_seq(s@, e, (), idle_step());
    }
    true
}

} // verus!
