//! Reed-Solomon forward error correction over one encoded audio
//! packet: 4 data shards plus 2 parity shards, so that any 4 of the 6
//! reconstruct the packet. The coding itself comes from the
//! `reed-solomon-erasure` crate; the codeword it computes is named
//! `rs_code_4_2`, and the shard layout around it is verified here.

use vstd::prelude::*;

verus! {

/// Data shards per packet.
pub const FEC_DATA_SHARDS: usize = 4;

/// Parity shards per packet.
pub const FEC_PARITY_SHARDS: usize = 2;

/// The 6-shard Reed-Solomon codeword over GF(2^8) whose first 4 shards
/// are the given data shards (Vandermonde construction, as the
/// `reed-solomon-erasure` crate computes it for 4 data and 2 parity
/// shards).
pub uninterp spec fn rs_code_4_2(data: Seq<Seq<u8>>) -> Seq<Seq<u8>>;

/// The values of a vector of shards.
pub open spec fn shard_views(s: Seq<Vec<u8>>) -> Seq<Seq<u8>> {
    s.map_values(|v: Vec<u8>| v@)
}

/// The values of a vector of possibly missing shards.
pub open spec fn opt_shard_views(s: Seq<Option<Vec<u8>>>) -> Seq<Option<Seq<u8>>> {
    s.map_values(
        |o: Option<Vec<u8>>|
            match o {
                Some(v) => Some(v@),
                None => None,
            },
    )
}

/// How many shards are present.
pub open spec fn count_present(s: Seq<Option<Seq<u8>>>) -> int
    decreases s.len(),
{
    if s.len() == 0 {
        0
    } else {
        count_present(s.drop_last()) + if s.last() is Some { 1int } else { 0int }
    }
}

/// The present shards agree with the codeword of the data shards `d`.
pub open spec fn rs_consistent(s: Seq<Option<Seq<u8>>>, d: Seq<Seq<u8>>) -> bool {
    &&& d.len() == 4
    &&& s.len() == 6
    &&& forall|i: int| 0 <= i < 6 && s[i] is Some ==> s[i]->0 == rs_code_4_2(d)[i]
}

/// Relies on `ReedSolomon::new(4, 2)` and `ReedSolomon::encode` of
/// `reed_solomon_erasure::galois_8`: encoding overwrites the two parity
/// slots with the codeword's parity, leaves the four data shards
/// untouched, keeps every shard's length, and succeeds whenever all six
/// shards share a positive length.
#[verifier::external_body]
fn rs_encode(shards: &mut Vec<Vec<u8>>) -> (r: Result<(), ()>)
    requires
        old(shards)@.len() == 6,
        forall|i: int|
            0 <= i < 6 ==> (#[trigger] old(shards)@[i])@.len() == old(shards)@[0]@.len(),
        old(shards)@[0]@.len() > 0,
    ensures
        r is Ok,
        final(shards)@.len() == 6,
        shard_views(final(shards)@) == rs_code_4_2(shard_views(old(shards)@.subrange(0, 4))),
        forall|i: int| 0 <= i < 4 ==> (#[trigger] final(shards)@[i])@ == old(shards)@[i]@,
        forall|i: int|
            0 <= i < 6 ==> (#[trigger] final(shards)@[i])@.len() == old(shards)@[0]@.len(),
{
    let rs = match reed_solomon_erasure::galois_8::ReedSolomon::new(4, 2) {
        Ok(rs) => rs,
        Err(_) => {
            return Err(());
        },
    };
    rs.encode(shards.as_mut_slice()).map_err(|_| ())
}

/// Relies on `ReedSolomon::reconstruct` of
/// `reed_solomon_erasure::galois_8` with 4 data and 2 parity shards:
/// when at least 4 shards of a codeword are present, all with one
/// positive length, reconstruction succeeds and fills the missing
/// slots so that the whole codeword stands again.
#[verifier::external_body]
fn rs_reconstruct(shards: &mut Vec<Option<Vec<u8>>>) -> (r: Result<(), ()>)
    requires
        old(shards)@.len() == 6,
        count_present(opt_shard_views(old(shards)@)) >= 4,
        forall|i: int, j: int|
            0 <= i < 6 && 0 <= j < 6 && old(shards)@[i] is Some && old(shards)@[j] is Some
                ==> (#[trigger] old(shards)@[i])->0@.len() == (#[trigger] old(shards)@[j])->0@.len(),
        forall|i: int| 0 <= i < 6 && old(shards)@[i] is Some ==> (#[trigger] old(shards)@[i])->0@.len() > 0,
    ensures
        r is Ok,
        final(shards)@.len() == 6,
        forall|d: Seq<Seq<u8>>|
            #[trigger] rs_consistent(opt_shard_views(old(shards)@), d) ==> forall|i: int|
                0 <= i < 6 ==> (#[trigger] final(shards)@[i]) is Some && final(shards)@[i]->0@
                    == rs_code_4_2(d)[i],
{
    let rs = match reed_solomon_erasure::galois_8::ReedSolomon::new(4, 2) {
        Ok(rs) => rs,
        Err(_) => {
            return Err(());
        },
    };
    rs.reconstruct(shards.as_mut_slice()).map_err(|_| ())
}

/// Shard size for a packet of `len` bytes: a quarter, rounded up.
pub open spec fn spec_shard_size(len: int) -> int {
    (len + 3) / 4
}

/// Data shard `i` of a packet: its `i`-th quarter, zero-padded at the
/// tail.
pub open spec fn spec_data_shard(data: Seq<u8>, i: int) -> Seq<u8> {
    Seq::new(
        spec_shard_size(data.len() as int) as nat,
        |j: int|
            if i * spec_shard_size(data.len() as int) + j < data.len() {
                data[i * spec_shard_size(data.len() as int) + j]
            } else {
                0u8
            },
    )
}

/// The four data shards of a packet.
pub open spec fn spec_data_shards(data: Seq<u8>) -> Seq<Seq<u8>> {
    Seq::new(4, |i: int| spec_data_shard(data, i))
}

/// Build the six shard buffers for one packet: four data shards of a
/// quarter of the packet each, zero-padded, and two zeroed parity
/// slots.
fn build_shards(data: &[u8]) -> (r: Vec<Vec<u8>>)
    requires
        data@.len() > 0,
        data@.len() + 3 <= usize::MAX,
    ensures
        r@.len() == 6,
        forall|i: int| 0 <= i < 4 ==> (#[trigger] r@[i])@ == spec_data_shard(data@, i),
        forall|i: int|
            4 <= i < 6 ==> (#[trigger] r@[i])@ == Seq::new(
                spec_shard_size(data@.len() as int) as nat,
                |j: int| 0u8,
            ),
        forall|i: int| 0 <= i < 6 ==> (#[trigger] r@[i])@.len() == spec_shard_size(data@.len() as int),
{
    let shard_size: usize = (data.len() + 3) / 4;
    let mut shards: Vec<Vec<u8>> = Vec::new();
    let mut i: usize = 0;
    while i < FEC_DATA_SHARDS
        invariant
            i <= 4,
            shards@.len() == i,
            data@.len() > 0,
            data@.len() + 3 <= usize::MAX,
            shard_size == spec_shard_size(data@.len() as int),
            forall|k: int| 0 <= k < i ==> (#[trigger] shards@[k])@ == spec_data_shard(data@, k),
        decreases 4 - i,
    {
        let mut shard: Vec<u8> = Vec::new();
        let mut j: usize = 0;
        while j < shard_size
            invariant
                j <= shard_size,
                data@.len() > 0,
                data@.len() + 3 <= usize::MAX,
                i < 4,
                shard_size == spec_shard_size(data@.len() as int),
                shard@.len() == j,
                forall|l: int| 0 <= l < j ==> shard@[l] == spec_data_shard(data@, i as int)[l],
            decreases shard_size - j,
        {
            proof {
                assert(i * shard_size + j < 4 * shard_size) by (nonlinear_arith)
                    requires
                        i < 4,
                        j < shard_size,
                {}
                assert(4 * shard_size <= data@.len() + 3);
            }
            let pos = i * shard_size + j;
            if pos < data.len() {
                shard.push(data[pos]);
            } else {
                shard.push(0u8);
            }
            j = j + 1;
        }
        proof {
            assert(shard@ =~= spec_data_shard(data@, i as int));
        }
        shards.push(shard);
        i = i + 1;
    }
    while i < FEC_DATA_SHARDS + FEC_PARITY_SHARDS
        invariant
            4 <= i <= 6,
            shards@.len() == i,
            data@.len() > 0,
            data@.len() + 3 <= usize::MAX,
            shard_size == spec_shard_size(data@.len() as int),
            forall|k: int| 0 <= k < 4 ==> (#[trigger] shards@[k])@ == spec_data_shard(data@, k),
            forall|k: int|
                4 <= k < i ==> (#[trigger] shards@[k])@ == Seq::new(
                    spec_shard_size(data@.len() as int) as nat,
                    |j: int| 0u8,
                ),
        decreases 6 - i,
    {
        let mut shard: Vec<u8> = Vec::new();
        let mut j: usize = 0;
        while j < shard_size
            invariant
                j <= shard_size,
                shard@.len() == j,
                forall|l: int| 0 <= l < j ==> shard@[l] == 0u8,
            decreases shard_size - j,
        {
            shard.push(0u8);
            j = j + 1;
        }
        proof {
            assert(shard@ =~= Seq::new(spec_shard_size(data@.len() as int) as nat, |j: int| 0u8));
        }
        shards.push(shard);
        i = i + 1;
    }
    proof {
        assert forall|i: int| 0 <= i < 6 implies (#[trigger] shards@[i])@.len() == spec_shard_size(
            data@.len() as int,
        ) by {
            if i < 4 {
                assert(shards@[i]@ == spec_data_shard(data@, i));
            }
        }
    }
    shards
}

/// Shard one encoded packet and run Reed-Solomon over it: the result is
/// the packet's 6-shard codeword, whose first four shards carry the
/// packet's bytes, zero-padded.
pub fn fec_shards(data: &[u8]) -> (r: Vec<Vec<u8>>)
    requires
        data@.len() > 0,
        data@.len() + 3 <= usize::MAX,
    ensures
        r@.len() == 6,
        shard_views(r@) == rs_code_4_2(spec_data_shards(data@)),
        forall|i: int| 0 <= i < 4 ==> (#[trigger] r@[i])@ == spec_data_shard(data@, i),
        forall|i: int| 0 <= i < 6 ==> (#[trigger] r@[i])@.len() == spec_shard_size(data@.len() as int),
{
    let mut shards = build_shards(data);
    let ghost pre = shards@;
    proof {
        assert(spec_shard_size(data@.len() as int) > 0);
        assert(shards@[0]@.len() > 0);
    }
    let encoded = rs_encode(&mut shards);
    match encoded {
        Ok(()) => {},
        Err(()) => {},
    }
    proof {
        assert(shard_views(pre.subrange(0, 4)) =~= spec_data_shards(data@));
    }
    shards
}

/// Reconstruct missing shards of one packet's codeword. Succeeds
/// exactly when at least four shards are present with one positive
/// length; then every slot holds its shard of the codeword that agrees
/// with the shards that were present.
pub fn recover_shards(shards: &mut Vec<Option<Vec<u8>>>) -> (r: Result<(), ()>)
    ensures
        (r is Ok) == (old(shards)@.len() == 6 && count_present(opt_shard_views(old(shards)@)) >= 4
            && (forall|i: int, j: int|
            0 <= i < 6 && 0 <= j < 6 && old(shards)@[i] is Some && old(shards)@[j] is Some
                ==> (#[trigger] old(shards)@[i])->0@.len() == (#[trigger] old(shards)@[j])->0@.len())
            && (forall|i: int|
            0 <= i < 6 && old(shards)@[i] is Some ==> (#[trigger] old(shards)@[i])->0@.len() > 0)),
        r is Ok ==> forall|d: Seq<Seq<u8>>|
            #[trigger] rs_consistent(opt_shard_views(old(shards)@), d) ==> forall|i: int|
                0 <= i < 6 ==> (#[trigger] final(shards)@[i]) is Some && final(shards)@[i]->0@
                    == rs_code_4_2(d)[i],
        r is Err ==> *final(shards) == *old(shards),
{
    if shards.len() != 6 {
        return Err(());
    }
    // count the present shards and find a present length
    let mut present: usize = 0;
    let mut length: usize = 0;
    let mut has_length: bool = false;
    let mut i: usize = 0;
    while i < 6
        invariant
            i <= 6,
            shards@.len() == 6,
            present <= i,
            present == count_present(opt_shard_views(shards@).subrange(0, i as int)),
            has_length == (exists|k: int| 0 <= k < i && (#[trigger] shards@[k]) is Some),
            has_length ==> exists|k: int|
                0 <= k < i && (#[trigger] shards@[k]) is Some && shards@[k]->0@.len() == length,
            forall|k: int, l: int|
                0 <= k < i && 0 <= l < i && shards@[k] is Some && shards@[l] is Some
                    ==> (#[trigger] shards@[k])->0@.len() == (#[trigger] shards@[l])->0@.len(),
            forall|k: int|
                0 <= k < i && (#[trigger] shards@[k]) is Some ==> shards@[k]->0@.len() > 0,
            has_length ==> length > 0,
        decreases 6 - i,
    {
        proof {
            assert(opt_shard_views(shards@).subrange(0, i + 1).drop_last() =~= opt_shard_views(
                shards@,
            ).subrange(0, i as int));
        }
        match &shards[i] {
            Some(s) => {
                if s.len() == 0 {
                    return Err(());
                }
                if has_length {
                    if s.len() != length {
                        return Err(());
                    }
                } else {
                    length = s.len();
                    has_length = true;
                }
                present = present + 1;
            },
            None => {},
        }
        i = i + 1;
    }
    proof {
        assert(opt_shard_views(shards@).subrange(0, 6) =~= opt_shard_views(shards@));
    }
    if present < 4 {
        return Err(());
    }
    rs_reconstruct(shards)
}

} // verus!
