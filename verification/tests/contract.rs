use remittance::{RemittanceContract, RemittanceRecord, TransferStatus};

const NOW: u64 = 1_700_000_000;

fn text(s: &str) -> String {
    s.to_string()
}

/// Sends a transfer at ledger time `NOW`, the host having drawn `drawn_id`, and returns
/// the reply.
fn send(
    ledger: &mut RemittanceContract,
    sender: (&str, &str, &str),
    recipient: (&str, &str, &str),
    amount_usd: u64,
    amount_idr: u64,
    message: &str,
    drawn_id: u64,
) -> u64 {
    ledger.send_money(
        text(sender.0),
        text(sender.1),
        text(sender.2),
        text(recipient.0),
        text(recipient.1),
        text(recipient.2),
        amount_usd,
        amount_idr,
        text(message),
        drawn_id,
        NOW,
    )
}

fn first(records: &[RemittanceRecord]) -> &RemittanceRecord {
    &records[0]
}

#[test]
fn test_send_money_success() {
    let mut ledger = RemittanceContract::new();
    let transfer_id = send(
        &mut ledger,
        ("Siti Aminah", "3578010101950001", "Malaysia"),
        ("Bapak Suwarno", "3578010101600001", "08123456789"),
        20000u64,
        3_100_000u64,
        "Buat bayar sekolah adik ya Pak",
        0,
    );

    assert!(transfer_id > 0);

    let result = ledger.get_transfer_by_id(transfer_id);
    assert_eq!(result.len(), 1);
    assert_eq!(first(&result).sender_name, text("Siti Aminah"));
    assert_eq!(first(&result).amount_usd, 20000u64);
}

#[test]
fn test_claim_money_success() {
    let mut ledger = RemittanceContract::new();
    let transfer_id = send(
        &mut ledger,
        ("Dewi Lestari", "3201010202930002", "Hongkong"),
        ("Ibu Parti", "3201010202650002", "08567890123"),
        15000u64,
        2_300_000u64,
        "Buat makan sehari-hari Bu",
        77,
    );

    let result = ledger.claim_money(transfer_id, text("3201010202650002"), NOW + 60);
    assert_eq!(result.message(), text("Transfer claimed successfully"));

    let transfer = ledger.get_transfer_by_id(transfer_id);
    assert_eq!(first(&transfer).status, TransferStatus::Claimed);
}

#[test]
fn test_claim_with_wrong_recipient_id() {
    let mut ledger = RemittanceContract::new();
    let transfer_id = send(
        &mut ledger,
        ("Rina Kartika", "3374010303940003", "Taiwan"),
        ("Pak Warno", "3374010303660003", "08234567890"),
        10000u64,
        1_550_000u64,
        "Titip buat bayar listrik",
        91,
    );

    let result = ledger.claim_money(transfer_id, text("9999999999999999"), NOW);
    assert_eq!(result.message(), text("ERROR: Recipient ID does not match"));
}

#[test]
fn test_cannot_claim_twice() {
    let mut ledger = RemittanceContract::new();
    let transfer_id = send(
        &mut ledger,
        ("Nurul Fadilah", "3273010404920004", "Saudi Arabia"),
        ("Ibu Romlah", "3273010404640004", "08345678901"),
        25000u64,
        3_875_000u64,
        "Lebaran sebentar lagi Bu",
        123,
    );

    ledger.claim_money(transfer_id, text("3273010404640004"), NOW);

    let result = ledger.claim_money(transfer_id, text("3273010404640004"), NOW);
    assert_eq!(result.message(), text("ERROR: Transfer has already been claimed"));
}

#[test]
fn test_cancel_transfer() {
    let mut ledger = RemittanceContract::new();
    let transfer_id = send(
        &mut ledger,
        ("Yuli Astuti", "3505010505910005", "Singapura"),
        ("Suami", "3505010505890005", "08456789012"),
        5000u64,
        775_000u64,
        "Salah kirim, tolong cancel",
        555,
    );

    let result = ledger.cancel_transfer(transfer_id, text("3505010505910005"));
    assert_eq!(result.message(), text("Transfer cancelled successfully"));

    let claim = ledger.claim_money(transfer_id, text("3505010505890005"), NOW);
    assert_eq!(claim.message(), text("ERROR: Transfer has been cancelled"));
}

#[test]
fn test_get_transfers_by_sender() {
    let mut ledger = RemittanceContract::new();
    send(
        &mut ledger,
        ("Siti Aminah", "3578010101950001", "Malaysia"),
        ("Bapak", "3578010101600001", "08111111111"),
        10000u64,
        1_550_000u64,
        "Kiriman bulan Januari",
        1,
    );
    send(
        &mut ledger,
        ("Siti Aminah", "3578010101950001", "Malaysia"),
        ("Bapak", "3578010101600001", "08111111111"),
        10000u64,
        1_550_000u64,
        "Kiriman bulan Februari",
        2,
    );

    let transfers = ledger.get_transfers_by_sender(text("3578010101950001"));
    assert_eq!(transfers.len(), 2);
}
