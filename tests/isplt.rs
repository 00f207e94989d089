use amm_core::isplt::{AccountMeta, ISPLT};
use solana_program::pubkey::Pubkey;

fn key(b: u8) -> Pubkey {
    Pubkey::new_from_array([b; 32])
}

#[test]
fn transfer_payload_is_byte_exact() {
    let ix = ISPLT::transfer(1000, key(1), key(2), key(3), key(9)).unwrap();
    assert_eq!(ix.data, vec![3, 0xE8, 0x03, 0, 0, 0, 0, 0, 0]);
    assert_eq!(ix.program_id, key(9));
}

#[test]
fn transfer_accounts_order_and_flags() {
    let ix = ISPLT::transfer(5, key(1), key(2), key(3), key(9)).unwrap();
    assert_eq!(
        ix.accounts,
        vec![
            AccountMeta { pubkey: key(1), is_signer: false, is_writable: true },
            AccountMeta { pubkey: key(2), is_signer: false, is_writable: true },
            AccountMeta { pubkey: key(3), is_signer: true, is_writable: false },
        ]
    );
}

#[test]
fn transfer_large_amount_encoding() {
    let ix = ISPLT::transfer(u64::MAX - 1, key(1), key(2), key(3), key(9)).unwrap();
    assert_eq!(ix.data, vec![3, 0xFE, 0xFF, 0xFF, 0xFF, 0xFF, 0xFF, 0xFF, 0xFF]);
    let ix = ISPLT::transfer(0x0102_0304_0506_0708, key(1), key(2), key(3), key(9)).unwrap();
    assert_eq!(ix.data, vec![3, 8, 7, 6, 5, 4, 3, 2, 1]);
}

#[test]
fn initialize_account_payload_and_accounts() {
    let ix = ISPLT::initialize_account(key(4), key(5), key(6), key(7), key(8)).unwrap();
    assert_eq!(ix.data, vec![1]);
    assert_eq!(ix.program_id, key(8));
    assert_eq!(
        ix.accounts,
        vec![
            AccountMeta { pubkey: key(4), is_signer: false, is_writable: true },
            AccountMeta { pubkey: key(5), is_signer: false, is_writable: false },
            AccountMeta { pubkey: key(6), is_signer: false, is_writable: false },
            AccountMeta { pubkey: key(7), is_signer: false, is_writable: false },
        ]
    );
}

#[test]
fn builders_are_deterministic() {
    let a = ISPLT::transfer(77, key(1), key(2), key(3), key(9)).unwrap();
    let b = ISPLT::transfer(77, key(1), key(2), key(3), key(9)).unwrap();
    assert_eq!(a, b);
    let c = ISPLT::initialize_account(key(4), key(5), key(6), key(7), key(8)).unwrap();
    let d = ISPLT::initialize_account(key(4), key(5), key(6), key(7), key(8)).unwrap();
    assert_eq!(c, d);
}

#[test]
fn account_meta_constructors() {
    assert_eq!(AccountMeta::new(key(1), true), AccountMeta { pubkey: key(1), is_signer: true, is_writable: true });
    assert_eq!(
        AccountMeta::new_readonly(key(1), false),
        AccountMeta { pubkey: key(1), is_signer: false, is_writable: false }
    );
}
