use vstd::prelude::*;

use crate::error::{StakeError, StakingError};
use crate::key::Pubkey;
use crate::name::{name_id, nft_id_from_name};
use metaplex_token_metadata::state::{Key, Metadata, MAX_METADATA_LEN};

verus! {

/// A creator listed in an NFT's metadata.
#[derive(Clone, Copy, Debug, PartialEq, Eq)]
pub struct Creator {
    pub address: Pubkey,
    pub verified: bool,
}

/// A creator as plain values: its address bytes and whether it is verified.
pub open spec fn creator_view(c: Creator) -> (Seq<u8>, bool) {
    (c.address@, c.verified)
}

/// A creator list as plain values.
pub open spec fn creators_view(creators: Option<Vec<Creator>>) -> Option<Seq<(Seq<u8>, bool)>> {
    match creators {
        None => None,
        Some(cs) => Some(cs@.map_values(|c: Creator| creator_view(c))),
    }
}

/// The address that the token-metadata program derives for the metadata
/// account of the mint with the given address bytes; `None` where no bump
/// seed yields an address off the curve.
pub uninterp spec fn metadata_pda(mint: Seq<u8>) -> Option<Seq<u8>>;

/// Derives the metadata account address of a mint with
/// `Pubkey::try_find_program_address` over the seeds `"metadata"`, the
/// token-metadata program id and the mint, under that program id.
///
/// The contract names the outcome and says nothing more of it.
#[verifier::external_body]
fn find_metadata_address(mint: &Pubkey) -> (r: Option<Pubkey>)
    ensures
        match r {
            None => metadata_pda(mint@) is None,
            Some(k) => metadata_pda(mint@) == Some(k@),
        },
{
    let program_id = metaplex_token_metadata::id();
    let mint_key = anchor_lang::prelude::Pubkey::new_from_array(mint.bytes);
    let found = anchor_lang::prelude::Pubkey::try_find_program_address(
        &[
            metaplex_token_metadata::state::PREFIX.as_bytes(),
            program_id.as_ref(),
            mint_key.as_ref(),
        ],
        &program_id,
    );
    found.map(|(address, _)| Pubkey { bytes: address.to_bytes() })
}

/// What the token-metadata program's reader makes of a metadata account's
/// bytes: the NFT's name and its creators as plain values, or `None` where
/// the bytes are not a metadata record.
pub uninterp spec fn parsed_metadata(data: Seq<u8>) -> Option<(Seq<char>, Option<Seq<(Seq<u8>, bool)>>)>;

/// Reads a metadata account's bytes with the token-metadata program's
/// `utils::try_from_slice_checked` (record kind `MetadataV1`, length
/// `MAX_METADATA_LEN`) and keeps the name and the creators.
///
/// The contract names the outcome; the outside error is dropped. The
/// outside function reads the first byte, so empty data is left out.
#[verifier::external_body]
fn parse_metadata(data: &[u8]) -> (r: Option<(Vec<char>, Option<Vec<Creator>>)>)
    requires
        data@.len() > 0,
    ensures
        match r {
            None => parsed_metadata(data@) is None,
            Some(x) => parsed_metadata(data@) == Some((x.0@, creators_view(x.1))),
        },
{
    let read = metaplex_token_metadata::utils::try_from_slice_checked::<Metadata>(
        data,
        Key::MetadataV1,
        MAX_METADATA_LEN,
    );
    read.ok().map(|md| (md.data.name.chars().collect(), md.data.creators.map(|cs| cs.iter().map(
        |c| Creator { address: Pubkey { bytes: c.address.to_bytes() }, verified: c.verified },
    ).collect())))
}

/// Accepts `mint_metadata` only where it is the expected metadata address.
pub fn check_metadata_address(expected: &Pubkey, mint_metadata: &Pubkey) -> (r: Result<
    (),
    StakingError,
>)
    ensures
        r == (if expected@ == mint_metadata@ {
            Ok(())
        } else {
            Err(StakingError::InvaliedMetadata)
        }),
{
    if expected.equals(mint_metadata) {
        Ok(())
    } else {
        Err(StakingError::InvaliedMetadata)
    }
}

/// What the metadata-address check of a mint decides: `None` where no
/// address can be derived, else whether `key` is the derived address.
pub open spec fn metadata_address_outcome(mint: Seq<u8>, key: Seq<u8>) -> Option<
    Result<(), StakingError>,
> {
    match metadata_pda(mint) {
        None => None,
        Some(pda) => Some(
            if pda == key {
                Ok(())
            } else {
                Err(StakingError::InvaliedMetadata)
            },
        ),
    }
}

/// Accepts `mint_metadata` only where it is the metadata account that the
/// token-metadata program derives for `nft_mint`; `None` where no address
/// can be derived.
pub fn verify_metadata_address(nft_mint: &Pubkey, mint_metadata: &Pubkey) -> (r: Option<
    Result<(), StakingError>,
>)
    ensures
        r == metadata_address_outcome(nft_mint@, mint_metadata@),
{
    match find_metadata_address(nft_mint) {
        None => None,
        Some(metadata) => Some(check_metadata_address(&metadata, mint_metadata)),
    }
}

/// A creator that admits an NFT to the single-NFT pool: verified, and one
/// of the two collections.
pub open spec fn admits_stake(c: (Seq<u8>, bool), ape_collection: Seq<u8>, tiger_collection: Seq<
    u8,
>) -> bool {
    (c.0 == ape_collection || c.0 == tiger_collection) && c.1
}

/// `creators[k]` is the first creator that admits the NFT.
pub open spec fn first_admitting(
    creators: Seq<(Seq<u8>, bool)>,
    ape_collection: Seq<u8>,
    tiger_collection: Seq<u8>,
    k: int,
) -> bool {
    &&& 0 <= k < creators.len()
    &&& admits_stake(creators[k], ape_collection, tiger_collection)
    &&& forall|j: int|
        0 <= j < k ==> !admits_stake(creators[j], ape_collection, tiger_collection)
}

/// What the creators decide for the single-NFT pool: 1 for an ape and 0
/// for a tiger, by the first creator that admits the NFT.
pub open spec fn stake_decision(
    creators: Seq<(Seq<u8>, bool)>,
    ape_collection: Seq<u8>,
    tiger_collection: Seq<u8>,
) -> Result<u64, StakingError> {
    if exists|k: int| first_admitting(creators, ape_collection, tiger_collection, k) {
        let k = choose|k: int| first_admitting(creators, ape_collection, tiger_collection, k);
        Ok(
            if creators[k].0 == ape_collection {
                1u64
            } else {
                0u64
            },
        )
    } else {
        Err(StakingError::UnkownOrNotAllowedNFTCollection)
    }
}

/// What an optional creator list decides for the single-NFT pool.
pub open spec fn stake_collection_outcome(
    creators: Option<Seq<(Seq<u8>, bool)>>,
    ape_collection: Seq<u8>,
    tiger_collection: Seq<u8>,
) -> Result<u64, StakingError> {
    match creators {
        None => Err(StakingError::MetadataCreatorParseError),
        Some(cs) => stake_decision(cs, ape_collection, tiger_collection),
    }
}

/// Some creator is verified and has the address `collection`.
pub open spec fn lists_verified(creators: Seq<(Seq<u8>, bool)>, collection: Seq<u8>) -> bool {
    exists|k: int| 0 <= k < creators.len() && (#[trigger] creators[k]).0 == collection && creators[k].1
}

/// What an optional creator list decides for membership in `collection`.
pub open spec fn collection_outcome(creators: Option<Seq<(Seq<u8>, bool)>>, collection: Seq<u8>) -> Result<
    (),
    StakingError,
> {
    match creators {
        None => Err(StakingError::MetadataCreatorParseError),
        Some(cs) => if lists_verified(cs, collection) {
            Ok(())
        } else {
            Err(StakingError::UnkownOrNotAllowedNFTCollection)
        },
    }
}

/// Decides from an NFT's creators whether it may enter the single-NFT
/// pool, and returns 1 for an ape and 0 for a tiger.
pub fn stake_collection(
    creators: &Option<Vec<Creator>>,
    ape_collection: &Pubkey,
    tiger_collection: &Pubkey,
) -> (r: Result<u64, StakingError>)
    ensures
        r == stake_collection_outcome(creators_view(*creators), ape_collection@, tiger_collection@),
{
    match creators {
        None => Err(StakingError::MetadataCreatorParseError),
        Some(cs) => {
            let ghost v = cs@.map_values(|c: Creator| creator_view(c));
            let mut i: usize = 0;
            while i < cs.len()
                invariant
                    *creators == Some(*cs),
                    v == cs@.map_values(|c: Creator| creator_view(c)),
                    i <= cs.len(),
                    forall|j: int|
                        0 <= j < i ==> !admits_stake(v[j], ape_collection@, tiger_collection@),
                decreases cs.len() - i,
            {
                let creator = &cs[i];
                let is_ape_creator = creator.address.equals(ape_collection);
                let is_tiger_creator = creator.address.equals(tiger_collection);
                assert(v[i as int] == creator_view(cs@[i as int]));
                if (is_ape_creator || is_tiger_creator) && creator.verified {
                    let is_ape: u64 = if is_ape_creator {
                        1
                    } else {
                        0
                    };
                    assert(first_admitting(v, ape_collection@, tiger_collection@, i as int));
                    let ghost k = choose|k: int|
                        first_admitting(v, ape_collection@, tiger_collection@, k);
                    proof {
                        if k > i {
                            assert(!admits_stake(v[i as int], ape_collection@, tiger_collection@));
                        }
                    }
                    assert(k == i);
                    return Ok(is_ape);
                }
                i = i + 1;
            }
            Err(StakingError::UnkownOrNotAllowedNFTCollection)
        },
    }
}

/// Decides from an NFT's creators whether it belongs to `collection`:
/// some creator is verified and has that address.
pub fn require_collection(creators: &Option<Vec<Creator>>, collection: &Pubkey) -> (r: Result<
    (),
    StakingError,
>)
    ensures
        r == collection_outcome(creators_view(*creators), collection@),
{
    match creators {
        None => Err(StakingError::MetadataCreatorParseError),
        Some(cs) => {
            let ghost v = cs@.map_values(|c: Creator| creator_view(c));
            let mut i: usize = 0;
            while i < cs.len()
                invariant
                    *creators == Some(*cs),
                    v == cs@.map_values(|c: Creator| creator_view(c)),
                    i <= cs.len(),
                    forall|j: int|
                        0 <= j < i ==> !((#[trigger] v[j]).0 == collection@ && v[j].1),
                decreases cs.len() - i,
            {
                let creator = &cs[i];
                assert(v[i as int] == creator_view(cs@[i as int]));
                if creator.address.equals(collection) && creator.verified {
                    assert(v[i as int].0 == collection@ && v[i as int].1);
                    return Ok(());
                }
                i = i + 1;
            }
            Err(StakingError::UnkownOrNotAllowedNFTCollection)
        },
    }
}

/// What the checks before staking one NFT decide: `None` where reading the
/// metadata panics (no address can be derived, or the metadata account at
/// the derived address holds no bytes); else the first failing check's
/// error, in the order address, metadata record, creators; else 1 for an
/// ape and 0 for a tiger.
pub open spec fn stake_nft_outcome(
    nft_mint: Seq<u8>,
    mint_metadata: Seq<u8>,
    metadata_data: Seq<u8>,
    ape_collection: Seq<u8>,
    tiger_collection: Seq<u8>,
) -> Option<Result<u64, StakeError>> {
    match metadata_address_outcome(nft_mint, mint_metadata) {
        None => None,
        Some(Err(e)) => Some(Err(StakeError::Staking(e))),
        Some(Ok(())) => if metadata_data.len() == 0 {
            None
        } else {
            match parsed_metadata(metadata_data) {
                None => Some(Err(StakeError::MetadataUnreadable)),
                Some(m) => Some(
                    match stake_collection_outcome(m.1, ape_collection, tiger_collection) {
                        Ok(is_ape) => Ok(is_ape),
                        Err(e) => Err(StakeError::Staking(e)),
                    },
                ),
            }
        },
    }
}

/// What reading one NFT of a pair decides, once its address is accepted:
/// `None` where reading panics (no bytes); else the record error or the
/// collection error; else the NFT's name.
pub open spec fn pair_member_outcome(metadata_data: Seq<u8>, collection: Seq<u8>) -> Option<
    Result<Seq<char>, StakeError>,
> {
    if metadata_data.len() == 0 {
        None
    } else {
        match parsed_metadata(metadata_data) {
            None => Some(Err(StakeError::MetadataUnreadable)),
            Some(m) => Some(
                match collection_outcome(m.1, collection) {
                    Ok(()) => Ok(m.0),
                    Err(e) => Err(StakeError::Staking(e)),
                },
            ),
        }
    }
}

/// What the checks before staking a pair decide: `None` where the original
/// reading panics; else the first failing check's error, in the order ape
/// address, tiger address, ape record and collection, tiger record and
/// collection; else the ids that the two names carry, ape first.
pub open spec fn stake_pair_outcome(
    ape_mint: Seq<u8>,
    ape_metadata: Seq<u8>,
    ape_data: Seq<u8>,
    tiger_mint: Seq<u8>,
    tiger_metadata: Seq<u8>,
    tiger_data: Seq<u8>,
    ape_collection: Seq<u8>,
    tiger_collection: Seq<u8>,
) -> Option<Result<(u32, u32), StakeError>> {
    match metadata_address_outcome(ape_mint, ape_metadata) {
        None => None,
        Some(Err(e)) => Some(Err(StakeError::Staking(e))),
        Some(Ok(())) => match metadata_address_outcome(tiger_mint, tiger_metadata) {
            None => None,
            Some(Err(e)) => Some(Err(StakeError::Staking(e))),
            Some(Ok(())) => match pair_member_outcome(ape_data, ape_collection) {
                None => None,
                Some(Err(e)) => Some(Err(e)),
                Some(Ok(ape_name)) => match pair_member_outcome(tiger_data, tiger_collection) {
                    None => None,
                    Some(Err(e)) => Some(Err(e)),
                    Some(Ok(tiger_name)) => match (name_id(ape_name), name_id(tiger_name)) {
                        (Some(ape_id), Some(tiger_id)) => Some(Ok((ape_id, tiger_id))),
                        _ => None,
                    },
                },
            },
        },
    }
}

/// Runs the checks before staking one NFT; `None` where reading the
/// metadata panics.
pub fn try_check_stake_nft(
    nft_mint: &Pubkey,
    mint_metadata: &Pubkey,
    metadata_data: &[u8],
    ape_collection: &Pubkey,
    tiger_collection: &Pubkey,
) -> (r: Option<Result<u64, StakeError>>)
    ensures
        r == stake_nft_outcome(
            nft_mint@,
            mint_metadata@,
            metadata_data@,
            ape_collection@,
            tiger_collection@,
        ),
{
    match verify_metadata_address(nft_mint, mint_metadata) {
        None => {
            return None;
        },
        Some(Err(e)) => {
            return Some(Err(StakeError::Staking(e)));
        },
        Some(Ok(())) => {},
    }
    if metadata_data.len() == 0 {
        return None;
    }
    match parse_metadata(metadata_data) {
        None => Some(Err(StakeError::MetadataUnreadable)),
        Some((_name, creators)) => Some(
            match stake_collection(&creators, ape_collection, tiger_collection) {
                Ok(is_ape) => Ok(is_ape),
                Err(e) => Err(StakeError::Staking(e)),
            },
        ),
    }
}

/// Runs the checks before staking one NFT: the metadata address, the
/// metadata record, then the creators; returns 1 for an ape, 0 for a tiger.
pub fn check_stake_nft(
    nft_mint: &Pubkey,
    mint_metadata: &Pubkey,
    metadata_data: &[u8],
    ape_collection: &Pubkey,
    tiger_collection: &Pubkey,
) -> (r: Result<u64, StakeError>)
    requires
        stake_nft_outcome(
            nft_mint@,
            mint_metadata@,
            metadata_data@,
            ape_collection@,
            tiger_collection@,
        ) is Some,
    ensures
        Some(r) == stake_nft_outcome(
            nft_mint@,
            mint_metadata@,
            metadata_data@,
            ape_collection@,
            tiger_collection@,
        ),
{
    match try_check_stake_nft(
        nft_mint,
        mint_metadata,
        metadata_data,
        ape_collection,
        tiger_collection,
    ) {
        Some(r) => r,
        None => {
            proof {
                assert(false);
            }
            Err(StakeError::MetadataUnreadable)
        },
    }
}

/// Reads one NFT of a pair whose address is accepted: its record, its
/// collection, and then its name; `None` where reading panics.
fn check_pair_member(metadata_data: &[u8], collection: &Pubkey) -> (r: Option<
    Result<Vec<char>, StakeError>,
>)
    ensures
        match r {
            None => pair_member_outcome(metadata_data@, collection@) is None,
            Some(Ok(name)) => pair_member_outcome(metadata_data@, collection@) == Some(
                Ok::<Seq<char>, StakeError>(name@),
            ),
            Some(Err(e)) => pair_member_outcome(metadata_data@, collection@) == Some(
                Err::<Seq<char>, StakeError>(e),
            ),
        },
{
    if metadata_data.len() == 0 {
        return None;
    }
    match parse_metadata(metadata_data) {
        None => Some(Err(StakeError::MetadataUnreadable)),
        Some((name, creators)) => match require_collection(&creators, collection) {
            Ok(()) => Some(Ok(name)),
            Err(e) => Some(Err(StakeError::Staking(e))),
        },
    }
}

/// Runs the checks before staking a pair; `None` where the reading panics.
pub fn try_check_stake_pair(
    ape_mint: &Pubkey,
    ape_metadata: &Pubkey,
    ape_data: &[u8],
    tiger_mint: &Pubkey,
    tiger_metadata: &Pubkey,
    tiger_data: &[u8],
    ape_collection: &Pubkey,
    tiger_collection: &Pubkey,
) -> (r: Option<Result<(u32, u32), StakeError>>)
    ensures
        r == stake_pair_outcome(
            ape_mint@,
            ape_metadata@,
            ape_data@,
            tiger_mint@,
            tiger_metadata@,
            tiger_data@,
            ape_collection@,
            tiger_collection@,
        ),
{
    match verify_metadata_address(ape_mint, ape_metadata) {
        None => {
            return None;
        },
        Some(Err(e)) => {
            return Some(Err(StakeError::Staking(e)));
        },
        Some(Ok(())) => {},
    }
    match verify_metadata_address(tiger_mint, tiger_metadata) {
        None => {
            return None;
        },
        Some(Err(e)) => {
            return Some(Err(StakeError::Staking(e)));
        },
        Some(Ok(())) => {},
    }
    let ape_name = match check_pair_member(ape_data, ape_collection) {
        None => {
            return None;
        },
        Some(Err(e)) => {
            return Some(Err(e));
        },
        Some(Ok(name)) => name,
    };
    let tiger_name = match check_pair_member(tiger_data, tiger_collection) {
        None => {
            return None;
        },
        Some(Err(e)) => {
            return Some(Err(e));
        },
        Some(Ok(name)) => name,
    };
    let ape_id = match nft_id_from_name(&ape_name) {
        None => {
            return None;
        },
        Some(id) => id,
    };
    let tiger_id = match nft_id_from_name(&tiger_name) {
        None => {
            return None;
        },
        Some(id) => id,
    };
    Some(Ok((ape_id, tiger_id)))
}

/// Runs the checks before staking a pair: both metadata addresses, then the
/// ape's record and collection, then the tiger's; returns the ids that the
/// two names carry, ape first.
pub fn check_stake_pair(
    ape_mint: &Pubkey,
    ape_metadata: &Pubkey,
    ape_data: &[u8],
    tiger_mint: &Pubkey,
    tiger_metadata: &Pubkey,
    tiger_data: &[u8],
    ape_collection: &Pubkey,
    tiger_collection: &Pubkey,
) -> (r: Result<(u32, u32), StakeError>)
    requires
        stake_pair_outcome(
            ape_mint@,
            ape_metadata@,
            ape_data@,
            tiger_mint@,
            tiger_metadata@,
            tiger_data@,
            ape_collection@,
            tiger_collection@,
        ) is Some,
    ensures
        Some(r) == stake_pair_outcome(
            ape_mint@,
            ape_metadata@,
            ape_data@,
            tiger_mint@,
            tiger_metadata@,
            tiger_data@,
            ape_collection@,
            tiger_collection@,
        ),
{
    match try_check_stake_pair(
        ape_mint,
        ape_metadata,
        ape_data,
        tiger_mint,
        tiger_metadata,
        tiger_data,
        ape_collection,
        tiger_collection,
    ) {
        Some(r) => r,
        None => {
            proof {
                assert(false);
            }
            Err(StakeError::MetadataUnreadable)
        },
    }
}

} // verus!
