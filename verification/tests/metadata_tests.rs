use metaplex_token_metadata::state::{Data, Key, Metadata, MAX_METADATA_LEN};
use anchor_lang::prelude::borsh::BorshSerialize;
use basc_staking::error::{StakeError, StakingError};
use basc_staking::key::Pubkey;
use basc_staking::metadata::{
    check_metadata_address, check_stake_nft, check_stake_pair, require_collection,
    stake_collection, try_check_stake_nft, try_check_stake_pair, verify_metadata_address,
    Creator,
};
use basc_staking::name::{decimal_fits_u32, id_digits, nft_id_from_name, vec_to_int};

fn key(b: u8) -> Pubkey {
    Pubkey::new_from_array([b; 32])
}

fn creator(b: u8, verified: bool) -> Creator {
    Creator { address: key(b), verified }
}

fn chars(s: &str) -> Vec<char> {
    s.chars().collect()
}

#[test]
fn metadata_address_is_derived_from_the_mint() {
    let mint = key(7);
    let program_id = metaplex_token_metadata::id();
    let mint_key = anchor_lang::prelude::Pubkey::new_from_array(mint.bytes);
    let (expected, _) = anchor_lang::prelude::Pubkey::find_program_address(
        &[b"metadata", program_id.as_ref(), mint_key.as_ref()],
        &program_id,
    );
    let expected = Pubkey::new_from_array(expected.to_bytes());
    assert_eq!(pda(&mint), expected);
    assert_eq!(verify_metadata_address(&mint, &expected), Some(Ok(())));
    assert_eq!(verify_metadata_address(&mint, &mint), Some(Err(StakingError::InvaliedMetadata)));
    assert_eq!(
        verify_metadata_address(&key(8), &expected),
        Some(Err(StakingError::InvaliedMetadata))
    );
}

#[test]
fn metadata_address_comparison() {
    assert_eq!(check_metadata_address(&key(1), &key(1)), Ok(()));
    assert_eq!(check_metadata_address(&key(1), &key(2)), Err(StakingError::InvaliedMetadata));
}

#[test]
fn stake_collection_cases() {
    let ape = key(10);
    let tiger = key(20);
    assert_eq!(stake_collection(&None, &ape, &tiger), Err(StakingError::MetadataCreatorParseError));
    assert_eq!(
        stake_collection(&Some(vec![]), &ape, &tiger),
        Err(StakingError::UnkownOrNotAllowedNFTCollection)
    );
    assert_eq!(
        stake_collection(&Some(vec![creator(10, false), creator(3, true)]), &ape, &tiger),
        Err(StakingError::UnkownOrNotAllowedNFTCollection)
    );
    assert_eq!(
        stake_collection(&Some(vec![creator(3, true), creator(10, true)]), &ape, &tiger),
        Ok(1)
    );
    assert_eq!(
        stake_collection(&Some(vec![creator(20, true), creator(10, true)]), &ape, &tiger),
        Ok(0)
    );
}

#[test]
fn require_collection_cases() {
    let ape = key(10);
    assert_eq!(require_collection(&None, &ape), Err(StakingError::MetadataCreatorParseError));
    assert_eq!(
        require_collection(&Some(vec![creator(10, false)]), &ape),
        Err(StakingError::UnkownOrNotAllowedNFTCollection)
    );
    assert_eq!(require_collection(&Some(vec![creator(1, true), creator(10, true)]), &ape), Ok(()));
}

#[test]
fn vec_to_int_reads_decimal() {
    assert_eq!(vec_to_int(chars("123")), Some(123));
    assert_eq!(vec_to_int(chars("")), Some(0));
    assert_eq!(vec_to_int(chars("007")), Some(7));
    assert_eq!(vec_to_int(chars("12a4")), None);
    assert_eq!(vec_to_int(chars("4294967295")), Some(u32::MAX));
    assert_eq!(vec_to_int(chars("x9")), None);
}

#[test]
fn decimal_fit_check() {
    assert!(decimal_fits_u32(&chars("4294967295")));
    assert!(!decimal_fits_u32(&chars("4294967296")));
    assert!(decimal_fits_u32(&chars("42x99999999999")));
}

#[test]
fn id_digits_follow_the_mark() {
    assert_eq!(id_digits(&chars("Ape #123")), chars("123"));
    assert_eq!(id_digits(&chars("Ape #45\0\0\0")), chars("45"));
    assert_eq!(id_digits(&chars("No mark")), chars(""));
    assert_eq!(id_digits(&chars("#")), chars(""));
    assert_eq!(id_digits(&chars("a#1#2")), chars("1#2"));
}

#[test]
fn nft_id_from_name_cases() {
    assert_eq!(nft_id_from_name(&chars("Tiger #88\0\0")), Some(88));
    assert_eq!(nft_id_from_name(&chars("Plain name")), Some(0));
    assert_eq!(nft_id_from_name(&chars("")), None);
    assert_eq!(nft_id_from_name(&chars("Bad #1a")), None);
    assert_eq!(nft_id_from_name(&chars("Big #99999999999")), None);
}

fn pda(mint: &Pubkey) -> Pubkey {
    let program_id = metaplex_token_metadata::id();
    let mint_key = anchor_lang::prelude::Pubkey::new_from_array(mint.bytes);
    let (address, _) = anchor_lang::prelude::Pubkey::find_program_address(
        &[b"metadata", program_id.as_ref(), mint_key.as_ref()],
        &program_id,
    );
    Pubkey::new_from_array(address.to_bytes())
}

fn metadata_bytes(name: &str, creators: Option<Vec<(u8, bool)>>) -> Vec<u8> {
    let creators = creators.map(|cs| {
        cs.into_iter()
            .map(|(b, verified)| metaplex_token_metadata::state::Creator {
                address: anchor_lang::prelude::Pubkey::new_from_array([b; 32]),
                verified,
                share: 0,
            })
            .collect()
    });
    let md = Metadata {
        key: Key::MetadataV1,
        update_authority: anchor_lang::prelude::Pubkey::default(),
        mint: anchor_lang::prelude::Pubkey::default(),
        data: Data {
            name: name.to_string(),
            symbol: String::new(),
            uri: String::new(),
            seller_fee_basis_points: 0,
            creators,
        },
        primary_sale_happened: false,
        is_mutable: false,
        edition_nonce: None,
    };
    let mut bytes = md.try_to_vec().unwrap();
    bytes.resize(MAX_METADATA_LEN, 0);
    bytes
}

#[test]
fn check_stake_nft_order() {
    let mint = key(7);
    let md = pda(&mint);
    let ape = key(10);
    let tiger = key(20);
    let tiger_nft = metadata_bytes("Tiger #5", Some(vec![(20, true)]));
    assert_eq!(check_stake_nft(&mint, &md, &tiger_nft, &ape, &tiger), Ok(0));
    let ape_nft = metadata_bytes("Ape #5", Some(vec![(3, true), (10, true)]));
    assert_eq!(check_stake_nft(&mint, &md, &ape_nft, &ape, &tiger), Ok(1));
    assert_eq!(
        check_stake_nft(&mint, &key(1), &[], &ape, &tiger),
        Err(StakeError::Staking(StakingError::InvaliedMetadata))
    );
    assert_eq!(
        check_stake_nft(&mint, &md, &[1, 2, 3], &ape, &tiger),
        Err(StakeError::MetadataUnreadable)
    );
    let no_creators = metadata_bytes("Ape #5", None);
    assert_eq!(
        check_stake_nft(&mint, &md, &no_creators, &ape, &tiger),
        Err(StakeError::Staking(StakingError::MetadataCreatorParseError))
    );
    let unverified = metadata_bytes("Ape #5", Some(vec![(10, false)]));
    assert_eq!(
        check_stake_nft(&mint, &md, &unverified, &ape, &tiger),
        Err(StakeError::Staking(StakingError::UnkownOrNotAllowedNFTCollection))
    );
    assert_eq!(try_check_stake_nft(&mint, &md, &[], &ape, &tiger), None);
}

#[test]
fn check_stake_pair_order() {
    let (am, tm) = (key(7), key(8));
    let (amd, tmd) = (pda(&am), pda(&tm));
    let ape = key(10);
    let tiger = key(20);
    let mut name = String::from("BASC #123");
    while name.len() < 32 {
        name.push('\0');
    }
    let a = metadata_bytes(&name, Some(vec![(10, true)]));
    let t = metadata_bytes("Tiger #123", Some(vec![(20, true)]));
    assert_eq!(check_stake_pair(&am, &amd, &a, &tm, &tmd, &t, &ape, &tiger), Ok((123, 123)));
    let t_plain = metadata_bytes("Tiger", Some(vec![(20, true)]));
    assert_eq!(check_stake_pair(&am, &amd, &a, &tm, &tmd, &t_plain, &ape, &tiger), Ok((123, 0)));
    assert_eq!(
        check_stake_pair(&am, &amd, &a, &tm, &amd, &[], &ape, &tiger),
        Err(StakeError::Staking(StakingError::InvaliedMetadata))
    );
    // a verified tiger creator does not admit the ape
    let wrong = metadata_bytes("Ape #1", Some(vec![(20, true)]));
    assert_eq!(
        check_stake_pair(&am, &amd, &wrong, &tm, &tmd, &[], &ape, &tiger),
        Err(StakeError::Staking(StakingError::UnkownOrNotAllowedNFTCollection))
    );
    let no_creators = metadata_bytes("Tiger #1", None);
    assert_eq!(
        check_stake_pair(&am, &amd, &a, &tm, &tmd, &no_creators, &ape, &tiger),
        Err(StakeError::Staking(StakingError::MetadataCreatorParseError))
    );
    let bad_id = metadata_bytes("Tiger #1x", Some(vec![(20, true)]));
    assert_eq!(try_check_stake_pair(&am, &amd, &a, &tm, &tmd, &bad_id, &ape, &tiger), None);
    assert_eq!(try_check_stake_pair(&am, &amd, &a, &tm, &tmd, &[], &ape, &tiger), None);
}
