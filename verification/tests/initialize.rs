use std::str::FromStr;

use anchor_lang::prelude::Pubkey;
use gamebook::derivation::derive_record_address;
use gamebook::errors::{ChapterError, InitializeError};
use gamebook::instructions::initialize_pda;
use gamebook::ledger::Ledger;
use gamebook::states::chapter_space;
use gamebook::{bytes_eq, copy_bytes};

const LABEL: &[u8] = b"gamebook_toly";
const PROGRAM_ID: &str = "BLEa4UDmpSn7URDAmmWXhg1KpTKt43Rp7bTeUgo7X3Bz";

fn program_bytes() -> Vec<u8> {
    Pubkey::from_str(PROGRAM_ID).unwrap().to_bytes().to_vec()
}

fn user_k1() -> Vec<u8> {
    let mut k = vec![0u8; 32];
    for (i, b) in k.iter_mut().enumerate() {
        *b = (i as u8) * 3 + 1;
    }
    k
}

fn user_k2() -> Vec<u8> {
    vec![0xabu8; 32]
}

#[test]
fn derivation_is_deterministic() {
    let label = LABEL.to_vec();
    let program = program_bytes();
    let user = user_k1();
    let first = derive_record_address(&label, &user, &program).unwrap();
    let second = derive_record_address(&label, &user, &program).unwrap();
    assert_eq!(first.0, second.0);
    assert_eq!(first.1, second.1);
}

#[test]
fn derivation_matches_host_search() {
    let label = LABEL.to_vec();
    let program = program_bytes();
    let user = user_k1();
    let (address, bump) = derive_record_address(&label, &user, &program).unwrap();

    let program_id = Pubkey::from_str(PROGRAM_ID).unwrap();
    let user_key = Pubkey::new_from_array(user.clone().try_into().unwrap());
    let (expected, expected_bump) =
        Pubkey::find_program_address(&[LABEL, user_key.as_ref()], &program_id);
    assert_eq!(address, expected.to_bytes().to_vec());
    assert_eq!(bump, expected_bump);
}

#[test]
fn stored_bump_is_maximal_off_curve() {
    let label = LABEL.to_vec();
    let program = program_bytes();
    let user = user_k1();
    let (address, bump) = derive_record_address(&label, &user, &program).unwrap();

    let program_id = Pubkey::from_str(PROGRAM_ID).unwrap();
    let direct = Pubkey::create_program_address(&[LABEL, &user, &[bump]], &program_id).unwrap();
    assert_eq!(address, direct.to_bytes().to_vec());
    for higher in (bump as u16 + 1)..=255 {
        let attempt =
            Pubkey::create_program_address(&[LABEL, &user, &[higher as u8]], &program_id);
        assert!(attempt.is_err());
    }
}

#[test]
fn labels_namespace_the_address_space() {
    let program = program_bytes();
    let user = user_k1();
    let toly = derive_record_address(&LABEL.to_vec(), &user, &program).unwrap();
    let plain = derive_record_address(&b"gamebook".to_vec(), &user, &program).unwrap();
    assert_ne!(toly.0, plain.0);
}

#[test]
fn initialize_succeeds_in_range() {
    let label = LABEL.to_vec();
    let program = program_bytes();
    for counter in [0u8, 1, 73, 199, 200] {
        let mut ledger = Ledger::new();
        let user = user_k1();
        let record = initialize_pda(&mut ledger, &label, &program, &user, counter, 10, 10).unwrap();
        assert_eq!(record.user, user);
        assert_eq!(record.chapter, counter);
    }
}

#[test]
fn initialize_writes_record_at_derived_address() {
    let label = LABEL.to_vec();
    let program = program_bytes();
    let user = user_k1();
    let mut ledger = Ledger::new();
    let record = initialize_pda(&mut ledger, &label, &program, &user, 200, 5, 0).unwrap();

    let (address, bump) = derive_record_address(&label, &user, &program).unwrap();
    assert_eq!(record.bump, bump);
    let stored = ledger.get_record(&address).unwrap();
    assert_eq!(stored.user, user);
    assert_eq!(stored.bump, bump);
    assert_eq!(stored.chapter, 200);
}

#[test]
fn initialize_rejects_out_of_range() {
    let label = LABEL.to_vec();
    let program = program_bytes();
    for counter in [201u8, 202, 250, 255] {
        let mut ledger = Ledger::new();
        let user = user_k1();
        let err = initialize_pda(&mut ledger, &label, &program, &user, counter, 10, 10).unwrap_err();
        assert_eq!(err, InitializeError::Chapter(ChapterError::TooManyChapters));
        let (address, _) = derive_record_address(&label, &user, &program).unwrap();
        assert!(!ledger.contains_address(&address));
        assert!(ledger.get_record(&address).is_none());
    }
}

#[test]
fn initialize_rejects_duplicate_and_keeps_record() {
    let label = LABEL.to_vec();
    let program = program_bytes();
    let user = user_k1();
    let mut ledger = Ledger::new();
    initialize_pda(&mut ledger, &label, &program, &user, 50, 10, 10).unwrap();

    let err = initialize_pda(&mut ledger, &label, &program, &user, 10, 10, 10).unwrap_err();
    assert_eq!(err, InitializeError::AddressAlreadyInitialized);

    let (address, _) = derive_record_address(&label, &user, &program).unwrap();
    let stored = ledger.get_record(&address).unwrap();
    assert_eq!(stored.chapter, 50);
    assert_eq!(stored.user, user);
}

#[test]
fn initialize_rejects_insufficient_funding() {
    let label = LABEL.to_vec();
    let program = program_bytes();
    let user = user_k1();
    let mut ledger = Ledger::new();
    let err = initialize_pda(&mut ledger, &label, &program, &user, 50, 41, 42).unwrap_err();
    assert_eq!(err, InitializeError::InsufficientFunding);
    let (address, _) = derive_record_address(&label, &user, &program).unwrap();
    assert!(!ledger.contains_address(&address));
}

#[test]
fn distinct_identities_are_independent() {
    let label = LABEL.to_vec();
    let program = program_bytes();
    let mut ledger = Ledger::new();
    let first = initialize_pda(&mut ledger, &label, &program, &user_k1(), 7, 10, 10).unwrap();
    let second = initialize_pda(&mut ledger, &label, &program, &user_k2(), 9, 10, 10).unwrap();

    let (addr1, _) = derive_record_address(&label, &user_k1(), &program).unwrap();
    let (addr2, _) = derive_record_address(&label, &user_k2(), &program).unwrap();
    assert_ne!(addr1, addr2);
    assert_eq!(ledger.get_record(&addr1).unwrap().chapter, first.chapter);
    assert_eq!(ledger.get_record(&addr2).unwrap().chapter, second.chapter);
}

#[test]
fn error_message_text() {
    assert_eq!(
        ChapterError::TooManyChapters.message(),
        "Too many chapters already, this story is over!"
    );
}

#[test]
fn chapter_space_is_header_plus_fields() {
    assert_eq!(chapter_space(), 42);
}

#[test]
fn byte_helpers() {
    let a = vec![1u8, 2, 3];
    let b = copy_bytes(&a);
    assert!(bytes_eq(&a, &b));
    assert!(!bytes_eq(&a, &vec![1u8, 2]));
    assert!(!bytes_eq(&a, &vec![1u8, 2, 4]));
}
