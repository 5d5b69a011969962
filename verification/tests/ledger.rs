use solana_program::program_option::COption;
use solana_program::program_pack::Pack;
use solana_program::pubkey::Pubkey;
use spl_token::state::Account;
use spl_token::state::AccountState;
use spl_token::state::Mint;
use staking::account::check_associated;
use staking::account::check_nft_mint;
use staking::account::is_nft_mint;
use staking::account::verify_associated;
use staking::account::Authority;
use staking::account::Beneficiary;
use staking::account::Endpoint;
use staking::account::PoolAuthority;
use staking::account::RewardPool;
use staking::account::Settings;
use staking::account::Stake;
use staking::address::Address;
use staking::error::StakingError;
use staking::ledger::derive_address;
use staking::ledger::match_address;
use staking::ledger::MintInfo;
use staking::ledger::TokenAccount;
use staking::processor::OpenedPosition;
use staking::processor::Processor;

fn address(key: &Pubkey) -> Address {
    Address::new(key.to_bytes())
}

fn found(pair: (Pubkey, u8)) -> Option<(Address, u8)> {
    Some((address(&pair.0), pair.1))
}

fn mint_data(mint: Mint) -> [u8; Mint::LEN] {
    let mut data = [0; Mint::LEN];
    Mint::pack(mint, &mut data).unwrap();
    data
}

fn account_data(mint: &Pubkey, owner: &Pubkey, amount: u64) -> [u8; Account::LEN] {
    let mut data = [0; Account::LEN];
    let account = Account {
        mint: *mint,
        owner: *owner,
        amount,
        delegate: COption::None,
        state: AccountState::Initialized,
        is_native: COption::None,
        delegated_amount: 0,
        close_authority: COption::None,
    };
    Account::pack(account, &mut data).unwrap();
    data
}

fn nft() -> Mint {
    Mint {
        mint_authority: COption::None,
        supply: 1,
        decimals: 0,
        is_initialized: true,
        freeze_authority: COption::None,
    }
}

#[test]
pub fn test_verify_nft_macro() {
    let mut data = [0; Mint::LEN];

    let ok_mint = Mint {
        mint_authority: COption::None,
        supply: 1,
        decimals: 0,
        is_initialized: true,
        freeze_authority: COption::None,
    };
    Mint::pack(ok_mint, &mut data).unwrap();
    assert_eq!(
        Ok(MintInfo { mint_authority: None, supply: 1, decimals: 0, is_initialized: true }),
        is_nft_mint(&data)
    );

    let bad_mint_authority = Mint {
        mint_authority: COption::Some(Pubkey::new_unique()),
        supply: 1,
        decimals: 0,
        is_initialized: true,
        freeze_authority: COption::None,
    };
    Mint::pack(bad_mint_authority, &mut data).unwrap();
    assert_eq!(Err(StakingError::NFTOwnerNotNFT), is_nft_mint(&data));

    let bad_mint_supply = Mint {
        mint_authority: COption::None,
        supply: 2,
        decimals: 0,
        is_initialized: true,
        freeze_authority: COption::None,
    };
    Mint::pack(bad_mint_supply, &mut data).unwrap();
    assert_eq!(Err(StakingError::NFTOwnerNotNFT), is_nft_mint(&data));

    let bad_mint_decimals = Mint {
        mint_authority: COption::None,
        supply: 1,
        decimals: 10,
        is_initialized: true,
        freeze_authority: COption::None,
    };
    Mint::pack(bad_mint_decimals, &mut data).unwrap();
    assert_eq!(Err(StakingError::NFTOwnerNotNFT), is_nft_mint(&data));

    let bad_mint_initialized = Mint {
        mint_authority: COption::None,
        supply: 1,
        decimals: 0,
        is_initialized: false,
        freeze_authority: COption::None,
    };
    Mint::pack(bad_mint_initialized, &mut data).unwrap();
    assert_eq!(Err(StakingError::NFTOwnerNotNFT), is_nft_mint(&data));
}

#[test]
fn nft_mint_needs_mint_data() {
    assert_eq!(is_nft_mint(&[]), Err(StakingError::NFTOwnerNotNFT));
    assert_eq!(is_nft_mint(&[0; 81]), Err(StakingError::NFTOwnerNotNFT));
    assert_eq!(check_nft_mint(None), Err(StakingError::NFTOwnerNotNFT));
    let good = MintInfo { mint_authority: None, supply: 1, decimals: 0, is_initialized: true };
    assert_eq!(check_nft_mint(Some(good)), Ok(good));
    for bad in [
        MintInfo { mint_authority: Some(Address::zero()), ..good },
        MintInfo { supply: 0, ..good },
        MintInfo { decimals: 1, ..good },
        MintInfo { is_initialized: false, ..good },
    ] {
        assert_eq!(check_nft_mint(Some(bad)), Err(StakingError::NFTOwnerNotNFT));
    }
}

#[test]
fn derived_addresses_are_those_of_the_ledger() {
    let program = Pubkey::new_unique();
    let program_id = address(&program);
    let endpoint = Pubkey::new_unique();
    let staker = Pubkey::new_unique();
    assert_eq!(
        Settings::program_address(&program_id),
        found(Pubkey::find_program_address(&[b"settings"], &program))
    );
    assert_eq!(
        PoolAuthority::program_address(&program_id),
        found(Pubkey::find_program_address(&[b"poolauthority"], &program))
    );
    assert_eq!(
        RewardPool::program_address(&program_id),
        found(Pubkey::find_program_address(&[b"rewardpool"], &program))
    );
    assert_eq!(
        Beneficiary::program_address(&address(&staker), &program_id),
        found(Pubkey::find_program_address(&[b"beneficiary", staker.as_ref()], &program))
    );
    assert_eq!(
        Stake::program_address(&address(&endpoint), &address(&staker), &program_id),
        found(Pubkey::find_program_address(
            &[b"stake", &endpoint.to_bytes(), &staker.to_bytes()],
            &program
        ))
    );
    assert_eq!(
        Stake::fund_address(&address(&endpoint), &address(&staker), &program_id),
        found(Pubkey::find_program_address(
            &[b"stake fund", &endpoint.to_bytes(), &staker.to_bytes()],
            &program
        ))
    );
    assert_eq!(
        derive_address("stake", &vec![address(&endpoint), address(&staker)], &program_id),
        Stake::program_address(&address(&endpoint), &address(&staker), &program_id)
    );
    let derived = Settings::program_address(&program_id).unwrap();
    assert!(!derived.0.same(&program_id));
}

#[test]
fn verify_program_address_gives_the_bump_seed() {
    let program = Pubkey::new_unique();
    let program_id = address(&program);
    let authority = address(&Pubkey::new_unique());
    let endpoint = address(&Pubkey::new_unique());
    let stranger = address(&Pubkey::new_unique());

    let (key, bump) = Settings::program_address(&program_id).unwrap();
    assert_eq!(Settings::verify_program_address(&key, &program_id), Ok(bump));
    assert_eq!(
        Settings::verify_program_address(&stranger, &program_id),
        Err(StakingError::InvalidSettingsAccount)
    );
    let (key, bump) = PoolAuthority::program_address(&program_id).unwrap();
    assert_eq!(PoolAuthority::verify_program_address(&key, &program_id), Ok(bump));
    assert_eq!(
        PoolAuthority::verify_program_address(&stranger, &program_id),
        Err(StakingError::InvalidPoolAuthorityAccount)
    );
    let (key, bump) = RewardPool::program_address(&program_id).unwrap();
    assert_eq!(RewardPool::verify_program_address(&key, &program_id), Ok(bump));
    assert_eq!(
        RewardPool::verify_program_address(&stranger, &program_id),
        Err(StakingError::InvalidRewardPoolAccount)
    );
    let (key, bump) = Beneficiary::program_address(&authority, &program_id).unwrap();
    assert_eq!(Beneficiary::verify_program_address(&key, &authority, &program_id), Ok(bump));
    assert_eq!(
        Beneficiary::verify_program_address(&key, &stranger, &program_id),
        Err(StakingError::InvalidBeneficiaryAccount)
    );
    let (key, bump) = Stake::program_address(&endpoint, &authority, &program_id).unwrap();
    assert_eq!(Stake::verify_program_address(&key, &endpoint, &authority, &program_id), Ok(bump));
    assert_eq!(
        Stake::verify_program_address(&key, &authority, &endpoint, &program_id),
        Err(StakingError::InvalidStakeAccount)
    );
    let (fund, bump) = Stake::fund_address(&endpoint, &authority, &program_id).unwrap();
    assert_eq!(Stake::verify_fund_address(&fund, &endpoint, &authority, &program_id), Ok(bump));
    assert_eq!(
        Stake::verify_fund_address(&key, &endpoint, &authority, &program_id),
        Err(StakingError::InvalidStakeFundAccount)
    );
}

#[test]
fn match_address_compares_the_derived_address() {
    let a = Address::new([1; 32]);
    let b = Address::new([2; 32]);
    let e = StakingError::InvalidStakeAccount;
    assert_eq!(match_address(Some((a, 254)), &a, e), Ok(254));
    assert_eq!(match_address(Some((a, 254)), &b, e), Err(e));
    assert_eq!(match_address(None, &a, e), Err(e));
}

#[test]
fn associated_account_must_hold_the_token_and_belong_to_the_owner() {
    let token = Pubkey::new_unique();
    let owner = Pubkey::new_unique();
    let other = Pubkey::new_unique();
    let data = account_data(&token, &owner, 55);
    let expected =
        TokenAccount { mint: address(&token), owner: address(&owner), amount: 55 };
    assert_eq!(verify_associated(&data, &address(&token), None), Ok(expected));
    assert_eq!(
        verify_associated(&data, &address(&token), Some(address(&owner))),
        Ok(expected)
    );
    assert_eq!(
        verify_associated(&data, &address(&other), Some(address(&owner))),
        Err(StakingError::AssociatedInvalidToken)
    );
    assert_eq!(
        verify_associated(&data, &address(&token), Some(address(&other))),
        Err(StakingError::AssociatedInvalidOwner)
    );
    assert_eq!(
        verify_associated(&data[1..], &address(&token), None),
        Err(StakingError::AssociatedInvalidAccount)
    );
    assert_eq!(
        verify_associated(&[0; Account::LEN], &address(&token), None),
        Err(StakingError::AssociatedInvalidAccount)
    );
    assert_eq!(
        check_associated(None, &address(&token), None),
        Err(StakingError::AssociatedInvalidAccount)
    );
    assert_eq!(check_associated(Some(expected), &address(&token), None), Ok(expected));
}

#[test]
fn authority_verification() {
    let key = Pubkey::new_unique();
    let other = Pubkey::new_unique();
    let basic = Authority::Basic(address(&key));
    assert_eq!(basic.verify(&address(&key), &[]), Ok(()));
    assert_eq!(
        basic.verify(&address(&other), &[]),
        Err(StakingError::AuthorityKeysDoNotMatch)
    );
    assert_eq!(
        Authority::Basic(Address::zero()).verify(&Address::zero(), &[]),
        Err(StakingError::InvalidAuthorityType)
    );
    let by_nft = Authority::NFT(address(&key));
    assert_eq!(by_nft.verify(&address(&key), &mint_data(nft())), Ok(()));
    assert_eq!(
        by_nft.verify(&address(&key), &mint_data(Mint { supply: 2, ..nft() })),
        Err(StakingError::NFTOwnerNotNFT)
    );
    assert_eq!(by_nft.verify(&address(&key), &[]), Err(StakingError::NFTOwnerNotNFT));
    assert_eq!(
        by_nft.verify(&address(&other), &mint_data(nft())),
        Err(StakingError::AuthorityKeysDoNotMatch)
    );
    assert_eq!(
        Authority::NFT(Address::zero()).verify(&Address::zero(), &mint_data(nft())),
        Err(StakingError::InvalidAuthorityType)
    );
    assert_eq!(by_nft.verify_mint(&address(&key), None), Err(StakingError::NFTOwnerNotNFT));
}

#[test]
fn authority_signature() {
    let key = address(&Pubkey::new_unique());
    let other = address(&Pubkey::new_unique());
    let basic = Authority::Basic(key);
    assert!(basic.has_signed(&key, &[], &key, true));
    assert!(!basic.has_signed(&key, &[], &key, false));
    assert!(!basic.has_signed(&key, &[], &other, true));
    assert!(!basic.has_signed(&other, &[], &other, true));

    let mint = Pubkey::new_unique();
    let holder = Pubkey::new_unique();
    let by_nft = Authority::NFT(address(&mint));
    let held = account_data(&mint, &holder, 1);
    assert!(by_nft.has_signed(&other, &held, &address(&holder), true));
    assert!(!by_nft.has_signed(&other, &held, &address(&holder), false));
    assert!(!by_nft.has_signed(&other, &held, &key, true));
    assert!(!by_nft.has_signed(&other, &account_data(&mint, &holder, 2), &address(&holder), true));
    assert!(!by_nft.has_signed(&other, &account_data(&holder, &holder, 1), &address(&holder), true));
    assert!(!by_nft.has_signed(&other, &[], &address(&holder), true));
    assert!(!by_nft.has_signed_account(&other, None, &address(&holder), true));
}

#[test]
fn initialize_checks_the_account_and_the_token() {
    let program = address(&Pubkey::new_unique());
    let token = address(&Pubkey::new_unique());
    let (account, bump) = Settings::program_address(&program).unwrap();
    let data = mint_data(Mint { supply: 1_000, decimals: 6, ..nft() });
    let (pool, seed) =
        Processor::process_initialize(&program, &account, 0, token, &data, 500, 864_000).unwrap();
    assert_eq!(seed, bump);
    assert_eq!(pool, Settings::new(token, 864_000, 500).unwrap());
    assert_eq!(
        Processor::process_initialize(&program, &account, 88, token, &data, 500, 864_000),
        Err(StakingError::ProgramAlreadyInitialized)
    );
    assert_eq!(
        Processor::process_initialize(&program, &token, 0, token, &data, 500, 864_000),
        Err(StakingError::InvalidSettingsAccount)
    );
    assert_eq!(
        Processor::process_initialize(&program, &account, 0, token, &[0; 82], 500, 864_000),
        Err(StakingError::TokenNotSPLToken)
    );
    assert_eq!(
        Processor::process_initialize(&program, &account, 0, token, &data, i64::MAX, 864_000),
        Err(StakingError::ArithmeticOverflow)
    );
}

#[test]
fn register_endpoint_checks_owner_and_accounts() {
    let program = address(&Pubkey::new_unique());
    let owner_key = address(&Pubkey::new_unique());
    let owner = Authority::Basic(owner_key);
    let primary = address(&Pubkey::new_unique());
    let secondary = address(&Pubkey::new_unique());
    let (primary_account, primary_bump) = Beneficiary::program_address(&primary, &program).unwrap();
    let (secondary_account, secondary_bump) =
        Beneficiary::program_address(&secondary, &program).unwrap();
    let run = |owner_account: &Address, signed: bool, empty: bool, first: &Address, second: &Address| {
        Processor::process_register_endpoint(
            &program,
            owner,
            owner_account,
            &[],
            signed,
            empty,
            &primary,
            first,
            &secondary,
            second,
            900,
        )
    };
    assert_eq!(
        run(&owner_key, true, true, &primary_account, &secondary_account),
        Ok((Endpoint::new(900, owner, primary, secondary), primary_bump, secondary_bump))
    );
    assert_eq!(
        run(&primary, true, true, &primary_account, &secondary_account),
        Err(StakingError::AuthorityKeysDoNotMatch)
    );
    assert_eq!(
        run(&owner_key, false, true, &primary_account, &secondary_account),
        Err(StakingError::InvalidEndpointAccount)
    );
    assert_eq!(
        run(&owner_key, true, false, &primary_account, &secondary_account),
        Err(StakingError::EndpointAccountAlreadyExists)
    );
    assert_eq!(
        run(&owner_key, true, true, &secondary_account, &secondary_account),
        Err(StakingError::InvalidBeneficiaryAccount)
    );
    assert_eq!(
        run(&owner_key, true, true, &primary_account, &primary_account),
        Err(StakingError::InvalidBeneficiaryAccount)
    );
}

#[test]
fn initialize_stake_checks_token_and_accounts() {
    let program = address(&Pubkey::new_unique());
    let token = address(&Pubkey::new_unique());
    let endpoint = address(&Pubkey::new_unique());
    let staker = address(&Pubkey::new_unique());
    let pool = Settings::new(token, 10, 0).unwrap();
    let (stake_account, stake_bump) = Stake::program_address(&endpoint, &staker, &program).unwrap();
    let (record_account, record_bump) = Beneficiary::program_address(&staker, &program).unwrap();
    let (fund_account, fund_bump) = Stake::fund_address(&endpoint, &staker, &program).unwrap();
    let run = |signed: bool,
               token: &Address,
               valid: bool,
               position: &Address,
               record: &Address,
               empty: bool,
               fund: &Address| {
        Processor::process_initialize_stake(
            &program, signed, &pool, token, &endpoint, valid, &staker, position, record, empty,
            fund, 1_234,
        )
    };
    let opened =
        run(true, &token, true, &stake_account, &record_account, true, &fund_account).unwrap();
    assert_eq!(
        opened.stake,
        Stake {
            creation_date: 1_234,
            total_stake: 0,
            staker,
            unbonding_end: 0,
            unbonding_amount: 0,
        }
    );
    assert_eq!(opened.stake_seed, stake_bump);
    assert_eq!(opened.fund_seed, fund_bump);
    assert_eq!(
        opened.beneficiary,
        Some((
            Beneficiary { authority: staker, staked: 0, reward_debt: 0, holding: 0 },
            record_bump
        ))
    );
    assert_eq!(pool, Settings::new(token, 10, 0).unwrap());

    // a record that exists is left alone, wherever its account stands
    let kept = run(true, &token, true, &stake_account, &fund_account, false, &fund_account).unwrap();
    assert_eq!(kept.beneficiary, None);
    assert_eq!(kept.stake, opened.stake);

    assert_eq!(
        run(false, &endpoint, false, &fund_account, &fund_account, true, &stake_account),
        Err(StakingError::MissingStakeSignature)
    );
    assert_eq!(
        run(true, &endpoint, false, &fund_account, &fund_account, true, &stake_account),
        Err(StakingError::InvalidToken)
    );
    assert_eq!(
        run(true, &token, false, &fund_account, &fund_account, true, &stake_account),
        Err(StakingError::InvalidEndpointAccount)
    );
    assert_eq!(
        run(true, &token, true, &fund_account, &fund_account, true, &stake_account),
        Err(StakingError::InvalidStakeAccount)
    );
    assert_eq!(
        run(true, &token, true, &stake_account, &fund_account, true, &stake_account),
        Err(StakingError::InvalidBeneficiaryAccount)
    );
    assert_eq!(
        run(true, &token, true, &stake_account, &record_account, true, &stake_account),
        Err(StakingError::InvalidStakeFundAccount)
    );
}

#[test]
fn transfer_endpoint_needs_owner_and_valid_recipient() {
    let owner_key = address(&Pubkey::new_unique());
    let recipient = address(&Pubkey::new_unique());
    let primary = address(&Pubkey::new_unique());
    let mut endpoint = Endpoint::new(1, Authority::Basic(owner_key), primary, primary);
    let unchanged = endpoint;
    assert_eq!(
        Processor::process_transfer_endpoint(
            &mut endpoint,
            &owner_key,
            &[],
            &owner_key,
            false,
            Authority::Basic(recipient),
            &recipient,
            &[],
        ),
        Err(StakingError::MissingAuthoritySignature)
    );
    assert_eq!(
        Processor::process_transfer_endpoint(
            &mut endpoint,
            &owner_key,
            &[],
            &owner_key,
            true,
            Authority::NFT(recipient),
            &recipient,
            &[],
        ),
        Err(StakingError::NFTOwnerNotNFT)
    );
    assert_eq!(endpoint, unchanged);
    assert_eq!(
        Processor::process_transfer_endpoint(
            &mut endpoint,
            &owner_key,
            &[],
            &owner_key,
            true,
            Authority::NFT(recipient),
            &recipient,
            &mint_data(nft()),
        ),
        Ok(())
    );
    assert_eq!(endpoint, Endpoint { owner: Authority::NFT(recipient), ..unchanged });
}

#[test]
fn decisions_on_given_outcomes() {
    let account = Address::new([1; 32]);
    let token = Address::new([2; 32]);
    let mint = MintInfo { mint_authority: None, supply: 9, decimals: 2, is_initialized: true };
    assert_eq!(
        Processor::initialize(0, Some((account, 250)), &account, Some(mint), token, 5, 6),
        Ok((Settings::new(token, 6, 5).unwrap(), 250))
    );
    assert_eq!(
        Processor::initialize(1, Some((account, 250)), &account, Some(mint), token, 5, 6),
        Err(StakingError::ProgramAlreadyInitialized)
    );
    assert_eq!(
        Processor::initialize(0, Some((token, 250)), &account, Some(mint), token, 5, 6),
        Err(StakingError::InvalidSettingsAccount)
    );
    assert_eq!(
        Processor::initialize(0, None, &account, Some(mint), token, 5, 6),
        Err(StakingError::InvalidSettingsAccount)
    );
    assert_eq!(
        Processor::initialize(0, Some((account, 250)), &account, None, token, 5, 6),
        Err(StakingError::TokenNotSPLToken)
    );

    let endpoint = Endpoint::new(3, Authority::Basic(account), token, token);
    assert_eq!(
        Processor::register_endpoint(Ok(()), true, true, Ok(7), Ok(8), endpoint),
        Ok((endpoint, 7, 8))
    );
    assert_eq!(
        Processor::register_endpoint(
            Err(StakingError::InvalidAuthorityType),
            false,
            false,
            Err(StakingError::InvalidBeneficiaryAccount),
            Ok(8),
            endpoint
        ),
        Err(StakingError::InvalidAuthorityType)
    );
    assert_eq!(
        Processor::register_endpoint(Ok(()), false, false, Ok(7), Ok(8), endpoint),
        Err(StakingError::InvalidEndpointAccount)
    );
    assert_eq!(
        Processor::register_endpoint(Ok(()), true, false, Ok(7), Ok(8), endpoint),
        Err(StakingError::EndpointAccountAlreadyExists)
    );
    assert_eq!(
        Processor::register_endpoint(
            Ok(()),
            true,
            true,
            Ok(7),
            Err(StakingError::InvalidBeneficiaryAccount),
            endpoint
        ),
        Err(StakingError::InvalidBeneficiaryAccount)
    );

    let position = Stake {
        creation_date: 4,
        total_stake: 0,
        staker: account,
        unbonding_end: 0,
        unbonding_amount: 0,
    };
    let record = Beneficiary { authority: account, staked: 0, reward_debt: 0, holding: 0 };
    let no = StakingError::InvalidBeneficiaryAccount;
    assert_eq!(
        Processor::initialize_stake(true, &token, &token, true, Ok(1), true, Ok(3), Ok(2), account, 4),
        Ok(OpenedPosition {
            stake: position,
            stake_seed: 1,
            fund_seed: 2,
            beneficiary: Some((record, 3))
        })
    );
    assert_eq!(
        Processor::initialize_stake(true, &token, &token, true, Ok(1), false, Err(no), Ok(2), account, 4),
        Ok(OpenedPosition { stake: position, stake_seed: 1, fund_seed: 2, beneficiary: None })
    );
    assert_eq!(
        Processor::initialize_stake(false, &token, &account, false, Ok(1), true, Ok(3), Ok(2), account, 4),
        Err(StakingError::MissingStakeSignature)
    );
    assert_eq!(
        Processor::initialize_stake(true, &token, &account, false, Ok(1), true, Ok(3), Ok(2), account, 4),
        Err(StakingError::InvalidToken)
    );
    assert_eq!(
        Processor::initialize_stake(
            true,
            &token,
            &token,
            false,
            Err(StakingError::InvalidStakeAccount),
            true,
            Err(no),
            Err(StakingError::InvalidStakeFundAccount),
            account,
            4
        ),
        Err(StakingError::InvalidEndpointAccount)
    );
    assert_eq!(
        Processor::initialize_stake(
            true,
            &token,
            &token,
            true,
            Err(StakingError::InvalidStakeAccount),
            true,
            Err(no),
            Err(StakingError::InvalidStakeFundAccount),
            account,
            4
        ),
        Err(StakingError::InvalidStakeAccount)
    );
    assert_eq!(
        Processor::initialize_stake(
            true,
            &token,
            &token,
            true,
            Ok(1),
            true,
            Err(no),
            Err(StakingError::InvalidStakeFundAccount),
            account,
            4
        ),
        Err(StakingError::InvalidBeneficiaryAccount)
    );
    assert_eq!(
        Processor::initialize_stake(
            true,
            &token,
            &token,
            true,
            Ok(1),
            false,
            Err(no),
            Err(StakingError::InvalidStakeFundAccount),
            account,
            4
        ),
        Err(StakingError::InvalidStakeFundAccount)
    );

    let mut handed = endpoint;
    let heir = Authority::NFT(token);
    assert_eq!(
        Processor::transfer_endpoint(&mut handed, false, Ok(()), heir),
        Err(StakingError::MissingAuthoritySignature)
    );
    assert_eq!(
        Processor::transfer_endpoint(
            &mut handed,
            true,
            Err(StakingError::AuthorityKeysDoNotMatch),
            heir
        ),
        Err(StakingError::AuthorityKeysDoNotMatch)
    );
    assert_eq!(handed, endpoint);
    assert_eq!(Processor::transfer_endpoint(&mut handed, true, Ok(()), heir), Ok(()));
    assert_eq!(handed, Endpoint { owner: heir, ..endpoint });
}
