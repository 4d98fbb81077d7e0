//! Decoder for the length-prefixed token-metadata record.
//!
//! Binary layout, with no terminator, checksum or padding:
//!
//! ```text
//! byte 0                   : decimal precision
//! byte 1                   : N = length of the name field
//! bytes 2..2+N             : name bytes
//! byte 2+N                 : M = length of the symbol field
//! bytes 2+N+1..2+N+1+M     : symbol bytes
//! ```
//!
//! Trailing bytes beyond the symbol field are ignored. Every multi-byte
//! read goes through the single bounds-checked primitive [`slice_vec`],
//! so that primitive is the only place a read past the buffer could
//! happen, and it checks first.

use vstd::prelude::*;

use crate::error::Error;

verus! {

/// What decoding a byte sequence yields: the `(decimal, name, symbol)`
/// triple on success, or the precise failure the layout dictates.
pub open spec fn spec_decode(data: Seq<u8>) -> Result<(u8, Seq<u8>, Seq<u8>), Error> {
    if data.len() < 2 {
        Err(Error::DecodeInfoError)
    } else {
        let decimal = data[0];
        let name_len = data[1] as int;
        if 2 + name_len > data.len() {
            Err(Error::IndexOutOfBound)
        } else if 2 + name_len + 1 > data.len() {
            Err(Error::IndexOutOfBound)
        } else {
            let symbol_len = data[2 + name_len] as int;
            if 2 + name_len + 1 + symbol_len > data.len() {
                Err(Error::IndexOutOfBound)
            } else {
                Ok((
                    decimal,
                    data.subrange(2, 2 + name_len),
                    data.subrange(2 + name_len + 1, 2 + name_len + 1 + symbol_len),
                ))
            }
        }
    }
}

/// The decoded triple with the byte vectors abstracted to sequences, so
/// that an executable result can be compared against [`spec_decode`].
pub open spec fn decoded_view(
    r: Result<(u8, Vec<u8>, Vec<u8>), Error>,
) -> Result<(u8, Seq<u8>, Seq<u8>), Error> {
    match r {
        Ok((decimal, name, symbol)) => Ok((decimal, name@, symbol@)),
        Err(e) => Err(e),
    }
}

/// The unique encoding of a record per the layout: decimal, name length,
/// name bytes, symbol length, symbol bytes.
pub open spec fn spec_encode(decimal: u8, name: Seq<u8>, symbol: Seq<u8>) -> Seq<u8> {
    seq![decimal, name.len() as u8] + name + seq![symbol.len() as u8] + symbol
}

/// What validating the whole configuration argument yields: empty input
/// is rejected up front with its own failure class, anything else is
/// accepted exactly when it decodes.
pub open spec fn spec_validate(data: Seq<u8>) -> Result<(), Error> {
    if data.len() == 0 {
        Err(Error::LengthNotEnough)
    } else {
        match spec_decode(data) {
            Ok(_) => Ok(()),
            Err(e) => Err(e),
        }
    }
}

/// Copy `length` bytes of `vec` starting at `start`, after checking that
/// the whole range is in bounds; also return the offset just past the
/// range, from which the next field starts.
///
/// This is the single checkpoint through which every variable-length
/// read of the decoder goes.
pub fn slice_vec(vec: &Vec<u8>, start: usize, length: usize) -> (r: Result<(Vec<u8>, usize), Error>)
    requires
        start + length <= usize::MAX,
    ensures
        match r {
            Ok(p) => {
                &&& start + length <= vec@.len()
                &&& p.0@ == vec@.subrange(start as int, start + length)
                &&& p.1 == start + length
            },
            Err(e) => {
                &&& start + length > vec@.len()
                &&& e == Error::IndexOutOfBound
            },
        },
{
    let n = vec.len();
    if start + length > n {
        return Err(Error::IndexOutOfBound);
    }

    let next_start = start + length;

    let mut sliced: Vec<u8> = Vec::new();
    let mut i: usize = 0;
    while i < length
        invariant
            i <= length,
            start + length <= vec@.len(),
            vec@.len() <= usize::MAX,
            sliced@ == vec@.subrange(start as int, start + i),
        decreases length - i,
    {
        sliced.push(vec[start + i]);
        assert(sliced@ =~= vec@.subrange(start as int, start + i + 1));
        i = i + 1;
    }
    Ok((sliced, next_start))
}

/// Decode the record: `(decimal, name, symbol)` on success, the failure
/// that [`spec_decode`] assigns to `data` otherwise.
///
/// Offsets accumulate from one field to the next, so the symbol cannot
/// be read before the name, and every variable-length read goes through
/// [`slice_vec`].
pub fn parse_udt_data(data: Vec<u8>) -> (r: Result<(u8, Vec<u8>, Vec<u8>), Error>)
    ensures
        decoded_view(r) == spec_decode(data@),
{
    if data.len() < 2 {
        return Err(Error::DecodeInfoError);
    }
    let decimal = data[0];
    let name_len = data[1];

    let (name, next_start) = match slice_vec(&data, 2, name_len as usize) {
        Ok(p) => p,
        Err(e) => {
            return Err(e);
        },
    };
    let (symbol_len_field, next_start) = match slice_vec(&data, next_start, 1) {
        Ok(p) => p,
        Err(e) => {
            return Err(e);
        },
    };
    let symbol_len = symbol_len_field[0];
    let (symbol, _next_start) = match slice_vec(&data, next_start, symbol_len as usize) {
        Ok(p) => p,
        Err(e) => {
            return Err(e);
        },
    };
    Ok((decimal, name, symbol))
}

/// Validate a configuration argument: reject empty input with
/// `LengthNotEnough`, then accept exactly the byte sequences that decode
/// to a record, ignoring trailing bytes.
pub fn validate_udt_data(data: Vec<u8>) -> (r: Result<(), Error>)
    ensures
        r == spec_validate(data@),
{
    if data.len() == 0 {
        return Err(Error::LengthNotEnough);
    }
    match parse_udt_data(data) {
        Ok(_) => Ok(()),
        Err(e) => Err(e),
    }
}

/// Encode a record per the layout, so that a caller can build exactly
/// the byte sequences the decoder accepts.
pub fn encode_udt_data(decimal: u8, name: &Vec<u8>, symbol: &Vec<u8>) -> (r: Vec<u8>)
    requires
        name@.len() <= 255,
        symbol@.len() <= 255,
    ensures
        r@ == spec_encode(decimal, name@, symbol@),
{
    let mut out: Vec<u8> = Vec::new();
    out.push(decimal);
    out.push(name.len() as u8);
    let mut i: usize = 0;
    while i < name.len()
        invariant
            i <= name@.len() <= 255,
            out@ == seq![decimal, name@.len() as u8] + name@.subrange(0, i as int),
        decreases name@.len() - i,
    {
        out.push(name[i]);
        assert(out@ =~= seq![decimal, name@.len() as u8] + name@.subrange(0, i + 1));
        i = i + 1;
    }
    assert(name@.subrange(0, name@.len() as int) =~= name@);
    out.push(symbol.len() as u8);
    let mut j: usize = 0;
    while j < symbol.len()
        invariant
            j <= symbol@.len() <= 255,
            out@ == seq![decimal, name@.len() as u8] + name@ + seq![symbol@.len() as u8]
                + symbol@.subrange(0, j as int),
        decreases symbol@.len() - j,
    {
        out.push(symbol[j]);
        assert(out@ =~= seq![decimal, name@.len() as u8] + name@ + seq![symbol@.len() as u8]
            + symbol@.subrange(0, j + 1));
        j = j + 1;
    }
    assert(symbol@.subrange(0, symbol@.len() as int) =~= symbol@);
    out
}

/// Any input too short to hold the two fixed leading bytes fails with
/// `DecodeInfoError`; at the validation entry the empty input fails
/// earlier still, with `LengthNotEnough`.
pub proof fn lemma_short_input_fails(data: Seq<u8>)
    requires
        data.len() < 2,
    ensures
        spec_decode(data) == Err::<(u8, Seq<u8>, Seq<u8>), Error>(Error::DecodeInfoError),
        data.len() == 0 ==> spec_validate(data) == Err::<(), Error>(Error::LengthNotEnough),
        data.len() == 1 ==> spec_validate(data) == Err::<(), Error>(Error::DecodeInfoError),
{
}

/// Decoding inverts encoding: every record whose field lengths fit in
/// one byte decodes from its own encoding, unchanged.
pub proof fn lemma_encode_decode_round_trip(decimal: u8, name: Seq<u8>, symbol: Seq<u8>)
    requires
        name.len() <= 255,
        symbol.len() <= 255,
    ensures
        spec_decode(spec_encode(decimal, name, symbol))
            == Ok::<(u8, Seq<u8>, Seq<u8>), Error>((decimal, name, symbol)),
{
    let e = spec_encode(decimal, name, symbol);
    let n = name.len() as int;
    let m = symbol.len() as int;
    assert(e.len() == 2 + n + 1 + m);
    assert(e[0] == decimal);
    assert(e[1] == name.len() as u8);
    assert(e[2 + n] == symbol.len() as u8);
    assert(e.subrange(2, 2 + n) =~= name);
    assert(e.subrange(2 + n + 1, 2 + n + 1 + m) =~= symbol);
}

/// A declared name length that runs past the end of the buffer fails
/// with `IndexOutOfBound`.
pub proof fn lemma_name_out_of_bounds(data: Seq<u8>)
    requires
        data.len() >= 2,
        2 + data[1] > data.len(),
    ensures
        spec_decode(data) == Err::<(u8, Seq<u8>, Seq<u8>), Error>(Error::IndexOutOfBound),
{
}

/// A symbol-length byte or declared symbol bytes that run past the end
/// of the buffer fail with `IndexOutOfBound`.
pub proof fn lemma_symbol_out_of_bounds(data: Seq<u8>)
    requires
        data.len() >= 2,
        2 + data[1] <= data.len(),
        2 + data[1] + 1 > data.len() || 2 + data[1] + 1 + data[2 + data[1] as int] > data.len(),
    ensures
        spec_decode(data) == Err::<(u8, Seq<u8>, Seq<u8>), Error>(Error::IndexOutOfBound),
{
}

/// Trailing bytes after a complete record do not affect the decoded
/// result: decoding is stable under extension of a decodable input.
pub proof fn lemma_trailing_bytes_ignored(data: Seq<u8>, extra: Seq<u8>)
    requires
        spec_decode(data) is Ok,
    ensures
        spec_decode(data + extra) == spec_decode(data),
{
    let whole = data + extra;
    let n = data[1] as int;
    assert(whole[0] == data[0]);
    assert(whole[1] == data[1]);
    assert(whole[2 + n] == data[2 + n]);
    let m = data[2 + n] as int;
    assert(whole.subrange(2, 2 + n) =~= data.subrange(2, 2 + n));
    assert(whole.subrange(2 + n + 1, 2 + n + 1 + m) =~= data.subrange(2 + n + 1, 2 + n + 1 + m));
}

} // verus!
