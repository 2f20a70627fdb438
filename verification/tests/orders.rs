use base64::Engine;
use sha2::{Digest, Sha256};

use twine_daemon::order::{
    allows_chat, check_payment_proof, decode_payment_proof, generate_preimage, new_id,
    normalize_pubkey, party_from, prefixed_hex,
    require_received_for_award, require_received_for_dispute, state_name, OrderError, OrderState,
    Trade,
};

#[test]
fn generate_preimage_hashes_with_sha256() {
    let (preimage, payment_hash) = generate_preimage();
    let raw = hex::decode(preimage.trim_start_matches("0x")).unwrap();
    let expected = format!("0x{}", hex::encode(Sha256::digest(raw)));
    assert_eq!(payment_hash, expected);
}

#[test]
fn decode_payment_proof_accepts_jpeg_and_png() {
    let jpeg = [0xFF, 0xD8, 0xFF, 0xD9];
    let png = [0x89, 0x50, 0x4E, 0x47, 0x0D, 0x0A, 0x1A, 0x0A];
    let jpeg_b64 = base64::engine::general_purpose::STANDARD.encode(jpeg);
    let png_b64 = base64::engine::general_purpose::STANDARD.encode(png);
    let (kind, bytes) = decode_payment_proof(&jpeg_b64, "image/jpg").unwrap();
    assert_eq!(kind, "image/jpeg");
    assert_eq!(bytes, jpeg);
    let (kind, bytes) = decode_payment_proof(&png_b64, "image/png").unwrap();
    assert_eq!(kind, "image/png");
    assert_eq!(bytes, png);
    assert!(decode_payment_proof("", "image/jpeg").is_err());
    assert!(decode_payment_proof(&jpeg_b64, "image/png").is_err());
    assert!(decode_payment_proof("@@@", "image/jpeg").is_err());
}

#[test]
fn payment_proof_errors_name_the_problem() {
    let jpeg_b64 = base64::engine::general_purpose::STANDARD.encode([0xFF, 0xD8, 0xFF, 0xD9]);
    let spaced = format!(" {} \n", &jpeg_b64);
    let inner = format!("{}\n {}", &jpeg_b64[..4], &jpeg_b64[4..]);
    assert_eq!(decode_payment_proof(&inner, "image/jpeg").unwrap().1, vec![0xFF, 0xD8, 0xFF, 0xD9]);
    assert_eq!(decode_payment_proof(&spaced, " IMAGE/JPEG ").unwrap().0, "image/jpeg");
    assert_eq!(
        decode_payment_proof("", "image/jpeg"),
        Err(OrderError::BadState("proof_b64 is required".to_string()))
    );
    assert_eq!(
        decode_payment_proof("@@@", "image/jpeg"),
        Err(OrderError::BadState("proof_b64 is not valid base64".to_string()))
    );
    let gif_b64 = base64::engine::general_purpose::STANDARD.encode(b"GIF89a");
    assert_eq!(
        decode_payment_proof(&gif_b64, "image/png"),
        Err(OrderError::BadState("proof must be a JPEG or PNG".to_string()))
    );
    assert_eq!(
        decode_payment_proof(&jpeg_b64, ""),
        Err(OrderError::BadState("content_type is required".to_string()))
    );
    assert_eq!(
        decode_payment_proof(&jpeg_b64, "image/png"),
        Err(OrderError::BadState("proof content_type image/png does not match file".to_string()))
    );
    let big = vec![0xFFu8; 1_572_865];
    let big_b64 = base64::engine::general_purpose::STANDARD.encode(&big);
    assert_eq!(
        decode_payment_proof(&big_b64, "image/jpeg"),
        Err(OrderError::BadState("proof must be at most 1.5 MB".to_string()))
    );
}

#[test]
fn parties_and_hold_checks() {
    assert_eq!(party_from(" Seller ").as_deref(), Ok("lister"));
    assert_eq!(party_from("BUYER").as_deref(), Ok("taker"));
    assert_eq!(
        party_from("judge"),
        Err(OrderError::BadState("from must be lister or taker".to_string()))
    );
    assert!(require_received_for_dispute("Received").is_ok());
    assert_eq!(
        require_received_for_dispute("Open"),
        Err(OrderError::BadState("open dispute needs hold invoice Received, got Open".to_string()))
    );
    assert!(require_received_for_award("Received").is_ok());
    assert_eq!(
        require_received_for_award("Expired"),
        Err(OrderError::BadState(
            "award refused: hold invoice is Expired; neither buyer nor seller award can run"
                .to_string()
        ))
    );
    assert_eq!(
        require_received_for_award("Paid"),
        Err(OrderError::BadState("award needs hold invoice Received, got Paid".to_string()))
    );
}

#[test]
fn states_and_chat() {
    assert!(allows_chat(OrderState::WaitingFiat));
    assert!(allows_chat(OrderState::Disputed));
    assert!(!allows_chat(OrderState::WaitingHold));
    assert!(!allows_chat(OrderState::Settled));
    assert!(Trade::watches_hold_invoice(OrderState::Leg2Failed));
    assert!(!Trade::watches_hold_invoice(OrderState::Pending));
    assert_eq!(state_name(OrderState::Leg2Failed), "Leg2Failed");
    assert_eq!(state_name(OrderState::WaitingHold), "WaitingHold");
}

#[test]
fn ids_and_keys() {
    let a = new_id();
    assert_eq!(a.len(), 16);
    assert!(a.chars().all(|c| c.is_ascii_hexdigit() && !c.is_ascii_uppercase()));
    assert_eq!(normalize_pubkey("  0x02AbCd "), "02abcd");
    assert_eq!(normalize_pubkey("0x0x02"), "02");
}

#[test]
fn checks_decoded_proof_bytes() {
    let png = vec![0x89, 0x50, 0x4E, 0x47, 0x0D, 0x0A, 0x1A, 0x0A, 0x00];
    let (kind, bytes) = check_payment_proof(png.clone(), "image/PNG").unwrap();
    assert_eq!(kind, "image/png");
    assert_eq!(bytes, png);
    assert_eq!(
        check_payment_proof(png, "image/jpeg"),
        Err(OrderError::BadState("proof content_type image/jpeg does not match file".to_string()))
    );
    assert_eq!(
        check_payment_proof(vec![1, 2, 3], "image/png"),
        Err(OrderError::BadState("proof must be a JPEG or PNG".to_string()))
    );
}

#[test]
fn prefixed_hex_is_lower_case_and_ordered() {
    assert_eq!(prefixed_hex(&[0x00, 0xAB, 0x5F]), "0x00ab5f");
    assert_eq!(prefixed_hex(&[]), "0x");
}
