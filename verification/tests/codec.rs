use device_agent::codec::{Codec, CodecError};
use device_agent::creds::{CredErr, Creds};
use device_agent::packet::MoonlightPacket as P;
use device_agent::protocol::{
    ConnectFailedError, MailAckType, PulseErrorReason, PulseType, SerializationFormat,
    UnauthorizedError,
};
use rand::distr::{Alphanumeric, SampleString};
use rand::prelude::IndexedRandom;
use sha2::{Digest, Sha256};
use std::cmp::max;

fn gen_rand_str(length: usize) -> String {
    Alphanumeric
        .sample_string(&mut rand::rng(), length)
        .to_uppercase()
}

fn txn_id() -> u64 {
    rand::random()
}

fn pulse_id() -> u64 {
    rand::random()
}

fn gen_fleet_id() -> String {
    gen_rand_str(8)
}

fn gen_device_id() -> String {
    gen_rand_str(10)
}

fn gen_device_secret() -> String {
    "FOS-".to_string() + &gen_rand_str(32)
}

#[test]
fn test_creds() {
    assert_eq!(
        Creds::new("", "", "", true).unwrap_err(),
        CredErr::FleetIDMissing
    );

    assert_eq!(
        Creds::new(&gen_rand_str(7), "", "", true).unwrap_err(),
        CredErr::FleetIDInvalid
    );

    assert_eq!(
        Creds::new(&gen_rand_str(8), "", "", true).unwrap_err(),
        CredErr::DeviceIDMissing
    );

    assert_eq!(
        Creds::new(&gen_rand_str(8), &gen_rand_str(9), "", true).unwrap_err(),
        CredErr::DeviceIDInvalid
    );

    assert_eq!(
        Creds::new(&gen_rand_str(8), &gen_rand_str(10), "", true).unwrap_err(),
        CredErr::DeviceSecretMissing
    );

    assert_eq!(
        Creds::new(
            &gen_rand_str(8),
            &gen_rand_str(10),
            &gen_rand_str(33),
            true
        )
        .unwrap_err(),
        CredErr::DeviceSecretInvalid
    );

    assert!(Creds::new(
        &gen_rand_str(8),
        &gen_rand_str(10),
        &gen_device_secret(),
        true
    )
    .is_ok());
}

#[test]
fn test_creds_hashing() {
    let cred1 = Creds::new(
        &gen_rand_str(8),
        &gen_rand_str(10),
        &gen_device_secret(),
        true,
    )
    .unwrap();

    let cred2 = Creds::new(
        &gen_rand_str(8),
        &gen_rand_str(10),
        &gen_device_secret(),
        true,
    )
    .unwrap();

    assert_ne!(cred1.hash(), cred2.hash());
    assert_eq!(cred1.hash(), cred1.hash());
}

#[test]
fn test_creds_errors() {
    assert!(CredErr::FleetIDMissing.to_string().contains("fostrom.io"));
    assert!(CredErr::DeviceIDMissing.to_string().contains("fostrom.io"));
    assert!(CredErr::DeviceSecretMissing
        .to_string()
        .contains("fostrom.io"));

    assert!(CredErr::FleetIDInvalid.to_string().contains("fostrom.io"));
    assert!(CredErr::DeviceIDInvalid.to_string().contains("fostrom.io"));
    assert!(CredErr::DeviceSecretInvalid
        .to_string()
        .contains("fostrom.io"));

    assert!(CredErr::FleetIDMissing.to_string().contains("missing"));
    assert!(CredErr::DeviceIDMissing.to_string().contains("missing"));
    assert!(CredErr::DeviceSecretMissing.to_string().contains("missing"));

    assert!(CredErr::FleetIDInvalid.to_string().contains("invalid"));
    assert!(CredErr::DeviceIDInvalid.to_string().contains("invalid"));
    assert!(CredErr::DeviceSecretInvalid.to_string().contains("invalid"));
}

fn cmp(packet: P, expected_bytes: &[u8]) {
    let bytes = Codec::encode(&packet).unwrap();
    assert_eq!(bytes, expected_bytes);

    let (decoded, len) = Codec::decode(&bytes).unwrap().unwrap();
    assert_eq!(len, bytes.len());
    assert_eq!(packet, decoded);

    let mut codec = Codec::new();
    codec.feed(&bytes);
    let packets = codec.process_packets().unwrap();
    assert_eq!(packets.len(), 1);
    assert_eq!(packets[0], packet);
}

#[test]
fn test_close_connection_packet() {
    cmp(P::server_close_connection(), &[1, 1]);
    cmp(P::client_close_connection(), &[1, 0]);
}

#[test]
fn test_connect() {
    let fleet_id = gen_fleet_id();
    let device_id = gen_device_id();
    let device_secret = gen_device_secret();

    let (fid, did, ds) = (fleet_id.clone(), device_id.clone(), device_secret.clone());

    let mut bytes: Vec<u8> = vec![
        2, // Packet Number
        1, // Flags: Keep Alive = True
        1, // Protocol Version
        2, // Serialization Format = Default JSON
    ];

    bytes.extend_from_slice(fleet_id.as_bytes());
    bytes.extend_from_slice(device_id.as_bytes());
    bytes.extend_from_slice(device_secret.as_bytes());

    let (packet, creds) = P::connect(fleet_id, device_id, device_secret, true).unwrap();

    assert_eq!(creds.fleet_id, fid);
    assert_eq!(creds.device_id, did);
    assert_eq!(creds.device_secret, ds);
    assert!(creds.prod);

    cmp(packet, &bytes);

    assert_eq!(
        P::connect(gen_rand_str(7), gen_device_id(), gen_device_secret(), true),
        Err(CredErr::FleetIDInvalid)
    );
}

#[test]
fn test_connected() {
    cmp(P::connected(false, false), &[3, 0]);
    cmp(P::connected(false, true), &[3, 1]);
    cmp(P::connected(true, false), &[3, 2]);
    cmp(P::connected(true, true), &[3, 3]);
}

#[test]
fn test_unauthorized() {
    cmp(P::unauthorized(UnauthorizedError::Unknown), &[4, 0, 0]);
    cmp(P::unauthorized(UnauthorizedError::InvalidCredentials), &[4, 0, 1]);
    cmp(P::unauthorized(UnauthorizedError::FleetNotFound), &[4, 0, 2]);
    cmp(P::unauthorized(UnauthorizedError::DeviceNotFound), &[4, 0, 3]);
    cmp(P::unauthorized(UnauthorizedError::DeviceSecretIncorrect), &[4, 0, 4]);
    cmp(P::unauthorized(UnauthorizedError::DeviceDisabled), &[4, 0, 5]);
    cmp(P::unauthorized(UnauthorizedError::TemporaryBan), &[4, 0, 6]);
}

#[test]
fn test_connect_failed() {
    cmp(P::connect_failed(ConnectFailedError::Unknown), &[5, 0, 0]);
    cmp(P::connect_failed(ConnectFailedError::ServiceRestarting), &[5, 0, 1]);
    cmp(P::connect_failed(ConnectFailedError::ServiceUnavailable), &[5, 0, 2]);
    cmp(P::connect_failed(ConnectFailedError::ServiceDegraded), &[5, 0, 3]);
}

#[test]
fn test_heartbeat_packet() {
    cmp(P::heartbeat(), &[8, 0]);
    cmp(P::heartbeat_ack(true), &[9, 1]);
    cmp(P::heartbeat_ack(false), &[9, 0]);
}

fn cmp_pulse() {
    let pulse_types: Vec<PulseType> = PulseType::all();
    let mut rng = rand::rng();
    let pulse_type = pulse_types.choose(&mut rng).unwrap().to_owned();
    let pulse_type_u8 = pulse_type.code();

    let pulse_id = pulse_id();
    let name = gen_rand_str(rand::random_range(1..255));
    let payload = gen_rand_str(rand::random_range(1..500_000));
    let name_len = name.len() as u8;
    let payload_len = payload.len() as u32;
    let mut bytes = Vec::new();
    bytes.extend_from_slice(&[10, 0]);
    bytes.extend_from_slice(&pulse_type_u8.to_be_bytes());
    bytes.extend_from_slice(&pulse_id.to_be_bytes());
    bytes.extend_from_slice(&name_len.to_be_bytes());
    bytes.extend_from_slice(name.as_bytes());
    bytes.extend_from_slice(&payload_len.to_be_bytes());
    bytes.extend_from_slice(payload.as_bytes());
    let pulse = P::pulse(pulse_type, pulse_id, name, payload);
    cmp(pulse, &bytes)
}

#[test]
fn test_pulse() {
    for _ in 0..10 {
        cmp_pulse();
    }
}

#[test]
fn test_pulse_resp_success() {
    let pulse_id = pulse_id();
    let pulse = P::pulse_resp_success(pulse_id);
    let mut bytes = Vec::new();
    bytes.extend_from_slice(&[11, 1]);
    bytes.extend_from_slice(&pulse_id.to_be_bytes());
    cmp(pulse, &bytes);
}

fn cmp_pulse_resp_error(reason: PulseErrorReason) {
    let pulse_id = pulse_id();
    let pulse = P::pulse_resp_error(pulse_id, reason);
    let mut bytes = Vec::new();
    bytes.extend_from_slice(&[11, 0]);
    bytes.extend_from_slice(&pulse_id.to_be_bytes());
    bytes.extend_from_slice(&[reason.code()]);
    cmp(pulse, &bytes);
}

#[test]
fn test_pulse_resp_error() {
    cmp_pulse_resp_error(PulseErrorReason::Unknown);
    cmp_pulse_resp_error(PulseErrorReason::DeserializationFailed);
    cmp_pulse_resp_error(PulseErrorReason::PacketSchemaNotFound);
    cmp_pulse_resp_error(PulseErrorReason::PacketSchemaTypeMismatch);
}

fn make_vec_with_txn_id(magic: u8, flag: u8, txn_id: u64) -> Vec<u8> {
    let mut bytes = Vec::new();
    bytes.extend_from_slice(&[magic, flag]);
    bytes.extend_from_slice(&txn_id.to_be_bytes());
    bytes
}

#[test]
fn test_new_mail_event() {
    let mailbox_size: u16 = max(1, rand::random());
    let pulse_id = pulse_id();
    let mut bytes = vec![20, 0];
    bytes.extend_from_slice(&mailbox_size.to_be_bytes());
    bytes.extend_from_slice(&pulse_id.to_be_bytes());
    cmp(P::new_mail_event(mailbox_size, pulse_id), &bytes);
}

#[test]
fn test_mailbox_next() {
    let txn_id = txn_id();
    let bytes = make_vec_with_txn_id(21, 0, txn_id);
    cmp(P::mailbox_next(false, txn_id), &bytes);

    let bytes = make_vec_with_txn_id(21, 1, txn_id);
    cmp(P::mailbox_next(true, txn_id), &bytes);
}

#[test]
fn test_mailbox_next_resp_failed() {
    let txn_id = txn_id();
    let mut bytes = make_vec_with_txn_id(22, 0, txn_id);
    bytes.extend_from_slice(&[0, 0]);
    cmp(P::mailbox_next_resp_failed(txn_id), &bytes);
}

#[test]
fn test_mailbox_next_resp_empty() {
    let txn_id = txn_id();
    let mut bytes = make_vec_with_txn_id(22, 1, txn_id);
    bytes.extend_from_slice(&[0, 0]);
    cmp(P::mailbox_next_resp_empty(txn_id), &bytes);
}

#[test]
fn test_mailbox_next_resp_header_only() {
    let txn_id = txn_id();
    let pulse_id = pulse_id();
    let name = gen_rand_str(rand::random_range(1..10));
    let name_len = name.len() as u8;
    let mailbox_size: u16 = max(1, rand::random());
    let mut bytes = make_vec_with_txn_id(22, 3, txn_id);
    bytes.extend_from_slice(&mailbox_size.to_be_bytes());
    bytes.extend_from_slice(&pulse_id.to_be_bytes());
    bytes.extend_from_slice(&name_len.to_be_bytes());
    bytes.extend_from_slice(name.as_bytes());
    let packet = P::mailbox_next_resp_header_only(txn_id, mailbox_size, pulse_id, name);
    cmp(packet, &bytes);
}

#[test]
fn test_mailbox_next_resp_full() {
    let txn_id = txn_id();
    let pulse_id = pulse_id();
    let mailbox_size: u16 = max(1, rand::random());
    let name = gen_rand_str(rand::random_range(1..255));
    let payload = gen_rand_str(rand::random_range(1..500_000));
    let name_len = name.len() as u8;
    let payload_len = payload.len() as u32;
    let mut bytes = make_vec_with_txn_id(22, 1, txn_id);
    bytes.extend_from_slice(&mailbox_size.to_be_bytes());
    bytes.extend_from_slice(&pulse_id.to_be_bytes());
    bytes.extend_from_slice(&name_len.to_be_bytes());
    bytes.extend_from_slice(name.as_bytes());
    bytes.extend_from_slice(&payload_len.to_be_bytes());
    bytes.extend_from_slice(payload.as_bytes());
    let packet = P::mailbox_next_resp_full(txn_id, mailbox_size, pulse_id, name, payload);
    cmp(packet, &bytes);
}

fn cmp_ack_mail(ack_type: MailAckType) {
    let pulse_id = pulse_id();
    let mut bytes = Vec::new();
    bytes.extend_from_slice(&[25, 0]);
    bytes.extend_from_slice(&pulse_id.to_be_bytes());
    bytes.push(ack_type.code());
    cmp(P::ack_mail(pulse_id, ack_type), &bytes);
}

fn cmp_ack_mail_resp(successful: bool, ack_type: MailAckType) {
    let mailbox_size: u16 = if successful {
        rand::random_range(1..1000)
    } else {
        0
    };

    let pulse_id = pulse_id();
    let mut bytes = Vec::new();
    let flags_byte = if successful { 1 } else { 0 };
    bytes.extend_from_slice(&[26, flags_byte]);
    bytes.extend_from_slice(&mailbox_size.to_be_bytes());
    bytes.extend_from_slice(&pulse_id.to_be_bytes());
    bytes.push(ack_type.code());

    if successful {
        cmp(P::ack_mail_resp(mailbox_size, pulse_id, ack_type), &bytes);
    } else {
        cmp(P::ack_mail_resp_failed(pulse_id, ack_type), &bytes);
    }
}

#[test]
fn test_ack_mail() {
    cmp_ack_mail(MailAckType::Ack);
    cmp_ack_mail(MailAckType::Reject);
    cmp_ack_mail(MailAckType::Requeue);
    cmp_ack_mail_resp(true, MailAckType::Ack);
    cmp_ack_mail_resp(false, MailAckType::Ack);
    cmp_ack_mail_resp(true, MailAckType::Reject);
    cmp_ack_mail_resp(false, MailAckType::Reject);
    cmp_ack_mail_resp(true, MailAckType::Requeue);
    cmp_ack_mail_resp(false, MailAckType::Requeue);
}

#[test]
fn test_partial_message() {
    let fleet_id = gen_fleet_id();
    let device_id = gen_device_id();
    let device_secret = gen_device_secret();

    // See the connect packet test for details on the first 4 bytes
    let mut bytes: Vec<u8> = vec![2, 1, 1, 2];
    bytes.extend_from_slice(fleet_id.as_bytes());
    bytes.extend_from_slice(device_id.as_bytes());
    bytes.extend_from_slice(device_secret.as_bytes());

    let (packet, _creds) = P::connect(fleet_id, device_id, device_secret, true).unwrap();
    cmp(packet.clone(), &bytes);

    let packet_bytes = Codec::encode(&packet).unwrap();

    let mut codec = Codec::new();
    codec.feed(&packet_bytes[..10]);

    // Ensure process_packets() succeeds but returns an empty vec
    let packets = codec.process_packets().unwrap();
    assert_eq!(packets.len(), 0);

    // Write the rest
    codec.feed(&packet_bytes[10..]);
    let packets = codec.process_packets().unwrap();
    assert_eq!(packets.len(), 1);
    assert_eq!(packets[0], packet);
}

#[test]
fn test_multiple_messages() {
    let (connect, _) =
        P::connect(gen_fleet_id(), gen_device_id(), gen_device_secret(), true).unwrap();
    let heartbeat = P::heartbeat();
    let pulse = P::pulse(
        PulseType::Unknown,
        pulse_id(),
        gen_rand_str(rand::random_range(1..255)),
        gen_rand_str(rand::random_range(1..500_000)),
    );

    let mut bytes = Vec::new();
    bytes.extend_from_slice(&Codec::encode(&connect).unwrap());
    bytes.extend_from_slice(&Codec::encode(&heartbeat).unwrap());
    bytes.extend_from_slice(&Codec::encode(&pulse).unwrap());

    let mut codec = Codec::new();
    codec.feed(&bytes);
    let packets = codec.process_packets().unwrap();

    assert_eq!(packets[0], connect);
    assert_eq!(packets[1], heartbeat);
    assert_eq!(packets[2], pulse);
}

#[test]
fn test_decode_packet_failed() {
    let e = Codec::decode(&[255, 0]).unwrap_err();
    assert!(e.to_string().contains("Failed to decode packet: "));

    let mut codec = Codec::new();
    codec.feed(&[255, 0]);
    let e = codec.process_packets().unwrap_err();
    assert!(e.to_string().contains("Failed to decode packet: "));
}

#[test]
fn test_codec_can_handle_partial_packets_correctly() {
    let mut codec = Codec::new();
    codec.feed(&[3]);
    let packets = codec.process_packets().unwrap();
    assert!(packets.is_empty());
    codec.feed(&[3]);
    let packets = codec.process_packets().unwrap();
    assert!(!packets.is_empty());
    let target = P::connected(true, true);
    assert_eq!(*packets.first().unwrap(), target);
}

// The fingerprint is the SHA-256 digest of the fields and the flag's text.
#[test]
fn test_creds_hash_is_sha256_of_fields() {
    let fleet_id = gen_fleet_id();
    let device_id = gen_device_id();
    let device_secret = gen_device_secret();
    let creds = Creds::new(&fleet_id, &device_id, &device_secret, false).unwrap();

    let mut hasher = Sha256::new();
    hasher.update(fleet_id.as_bytes());
    hasher.update(device_id.as_bytes());
    hasher.update(device_secret.as_bytes());
    hasher.update("false".as_bytes());
    let expected = format!("{:x}", hasher.finalize());

    assert_eq!(creds.hash(), expected);
    assert_eq!(creds.hash().len(), 64);
    assert!(creds
        .hash()
        .chars()
        .all(|c| c.is_ascii_digit() || ('a'..='f').contains(&c)));

    let other = Creds::new(&fleet_id, &device_id, &device_secret, true).unwrap();
    assert_ne!(creds.hash(), other.hash());
}

#[test]
fn test_creds_hash_known_digest() {
    let empty = Creds {
        fleet_id: String::new(),
        device_id: String::new(),
        device_secret: String::new(),
        prod: true,
    };
    assert_eq!(
        empty.hash(),
        "b5bea41b6c623f7c09f1bf24dcae58ebab3c0cdd90ad966bc43a45b44867e12b"
    );
}

#[test]
fn test_creds_reject_wrong_characters() {
    let fleet_id = gen_fleet_id();
    let device_id = gen_device_id();
    let secret = gen_device_secret();

    assert_eq!(
        Creds::new("ABCD-123", &device_id, &secret, true).unwrap_err(),
        CredErr::FleetIDInvalid
    );
    assert_eq!(
        Creds::new(&fleet_id, "ABCDE 1234", &secret, true).unwrap_err(),
        CredErr::DeviceIDInvalid
    );
    assert_eq!(
        Creds::new(&fleet_id, &device_id, &("FOX-".to_string() + &gen_rand_str(32)), true)
            .unwrap_err(),
        CredErr::DeviceSecretInvalid
    );
    assert_eq!(
        Creds::new(&fleet_id, &device_id, &("FOS-".to_string() + &gen_rand_str(31) + "_"), true)
            .unwrap_err(),
        CredErr::DeviceSecretInvalid
    );
    // Letters outside ASCII are not alphanumeric here, whatever their length in bytes.
    assert_eq!(
        Creds::new("ééééABCD", &device_id, &secret, true).unwrap_err(),
        CredErr::FleetIDInvalid
    );
    assert_eq!(
        Creds::new("éééé", &device_id, &secret, true).unwrap_err(),
        CredErr::FleetIDInvalid
    );
    let lower = Creds::new("abcd1234", "abcde12345", "FOS-abcdefghijklmnopqrstuvwxyz012345", false);
    assert!(lower.is_ok());
}

#[test]
fn test_encode_rejects_inconsistent_packets() {
    let short_fleet = P::Connect {
        keep_alive: true,
        protocol_version: 1,
        serialization_format: SerializationFormat::JSON,
        fleet_id: vec![65; 7],
        device_id: vec![65; 10],
        device_secret: vec![65; 36],
    };
    assert_eq!(Codec::encode(&short_fleet), Err(CodecError::InvalidPacket));
    assert!(CodecError::InvalidPacket
        .to_string()
        .contains("Invalid Packet: "));

    let wrong_name_len = P::Pulse {
        pulse_type: PulseType::Data,
        pulse_id: 1,
        name_len: 3,
        name: vec![97, 98],
        payload_len: 0,
        payload: vec![],
    };
    assert_eq!(Codec::encode(&wrong_name_len), Err(CodecError::InvalidPacket));

    let reason_on_success = P::PulseResp {
        successful: true,
        pulse_id: 1,
        error_reason: Some(PulseErrorReason::Unknown),
    };
    assert_eq!(
        Codec::encode(&reason_on_success),
        Err(CodecError::InvalidPacket)
    );

    let header_of_empty_mailbox = P::mailbox_next_resp_header_only(1, 0, 2, "n".to_string());
    assert_eq!(
        Codec::encode(&header_of_empty_mailbox),
        Err(CodecError::InvalidPacket)
    );
}

#[test]
fn test_decode_ignores_reserved_bits_and_rejects_bad_codes() {
    // Reserved bits of the flags byte are not looked at.
    let (p, n) = Codec::decode(&[1, 0xff]).unwrap().unwrap();
    assert_eq!((p, n), (P::server_close_connection(), 2));
    let (p, n) = Codec::decode(&[3, 0xfe, 9]).unwrap().unwrap();
    assert_eq!((p, n), (P::connected(true, false), 2));
    // Reserved bytes are not looked at either.
    let (p, n) = Codec::decode(&[4, 0x7f, 5]).unwrap().unwrap();
    assert_eq!((p, n), (P::unauthorized(UnauthorizedError::DeviceDisabled), 3));

    assert_eq!(Codec::decode(&[]), Ok(None));
    assert_eq!(Codec::decode(&[4, 0]), Ok(None));
    assert_eq!(Codec::decode(&[255]), Err(CodecError::DecodeFailed));
    assert_eq!(Codec::decode(&[0, 0]), Err(CodecError::DecodeFailed));
    assert_eq!(Codec::decode(&[4, 0, 7]), Err(CodecError::DecodeFailed));
    assert_eq!(Codec::decode(&[5, 0, 4]), Err(CodecError::DecodeFailed));
    assert_eq!(Codec::decode(&[10, 0, 4]), Err(CodecError::DecodeFailed));
    assert_eq!(Codec::decode(&[2, 1, 1, 3]), Err(CodecError::DecodeFailed));
    assert_eq!(
        Codec::decode(&[25, 0, 0, 0, 0, 0, 0, 0, 0, 1, 0]),
        Err(CodecError::DecodeFailed)
    );
    assert_eq!(
        Codec::decode(&[11, 0, 0, 0, 0, 0, 0, 0, 0, 1, 9]),
        Err(CodecError::DecodeFailed)
    );
}

#[test]
fn test_decode_caps_the_payload_length() {
    // A pulse with an empty name that announces 4 MiB + 1 bytes of payload.
    let mut bytes = vec![10, 0, 2, 0, 0, 0, 0, 0, 0, 0, 7, 0];
    bytes.extend_from_slice(&4_194_305u32.to_be_bytes());
    assert_eq!(Codec::decode(&bytes), Err(CodecError::DecodeFailed));

    // The largest payload that is accepted is waited for.
    let mut bytes = vec![10, 0, 2, 0, 0, 0, 0, 0, 0, 0, 7, 0];
    bytes.extend_from_slice(&4_194_304u32.to_be_bytes());
    assert_eq!(Codec::decode(&bytes), Ok(None));

    let mut bytes = vec![22, 1, 0, 0, 0, 0, 0, 0, 0, 9, 0, 1, 0, 0, 0, 0, 0, 0, 0, 5, 0];
    bytes.extend_from_slice(&u32::MAX.to_be_bytes());
    assert_eq!(Codec::decode(&bytes), Err(CodecError::DecodeFailed));
}

#[test]
fn test_streaming_in_single_bytes() {
    let frames = vec![
        P::connected(true, true),
        P::pulse_resp_error(77, PulseErrorReason::PacketSchemaNotFound),
        P::mailbox_next_resp_full(9, 2, 500, "hello".to_string(), "{\"a\":1}".to_string()),
        P::new_mail_event(3, u64::MAX),
        P::ack_mail_resp(0x1234, 0x0102030405060708, MailAckType::Requeue),
        P::heartbeat_ack(false),
    ];
    let mut stream = Vec::new();
    for f in &frames {
        stream.extend_from_slice(&Codec::encode(f).unwrap());
    }

    let mut codec = Codec::new();
    let mut seen = Vec::new();
    for b in &stream {
        codec.feed(&[*b]);
        seen.extend(codec.process_packets().unwrap());
    }
    assert_eq!(seen, frames);
    assert!(codec.buffered().is_empty());

    // Cut at every offset in turn.
    for cut in 0..=stream.len() {
        let mut codec = Codec::new();
        codec.feed(&stream[..cut]);
        let mut seen = codec.process_packets().unwrap();
        codec.feed(&stream[cut..]);
        seen.extend(codec.process_packets().unwrap());
        assert_eq!(seen, frames);
        assert!(codec.buffered().is_empty());
    }
}

#[test]
fn test_process_packets_keeps_the_malformed_tail() {
    let mut codec = Codec::new();
    codec.feed(&[9, 1, 200, 1, 2]);
    assert_eq!(codec.process_packets(), Err(CodecError::DecodeFailed));
    assert_eq!(codec.buffered(), &[200, 1, 2]);
}

#[test]
fn test_wire_integers_are_big_endian() {
    let bytes = Codec::encode(&P::ack_mail_resp(0x0102, 0x1122334455667788, MailAckType::Reject))
        .unwrap();
    assert_eq!(
        bytes,
        vec![26, 1, 0x01, 0x02, 0x11, 0x22, 0x33, 0x44, 0x55, 0x66, 0x77, 0x88, 2]
    );
    let bytes = Codec::encode(&P::pulse(
        PulseType::Msg,
        1,
        "ab".to_string(),
        "xyz".to_string(),
    ))
    .unwrap();
    assert_eq!(
        bytes,
        vec![10, 0, 3, 0, 0, 0, 0, 0, 0, 0, 1, 2, 97, 98, 0, 0, 0, 3, 120, 121, 122]
    );
}

#[test]
fn test_protocol_names_and_codes() {
    assert_eq!(PulseType::Data.to_string(), "datapoint");
    assert_eq!(PulseType::Msg.to_string(), "msg");
    assert_eq!(PulseType::System.to_string(), "system");
    assert_eq!(PulseType::Unknown.to_string(), "unknown");
    assert_eq!(MailAckType::Ack.to_string(), "acknowledge");
    assert_eq!(MailAckType::Reject.to_string(), "reject");
    assert_eq!(MailAckType::Requeue.to_string(), "requeue");
    assert_eq!(SerializationFormat::JSON.to_string(), "json");
    assert_eq!(SerializationFormat::MsgPack.to_string(), "msgpack");
    assert_eq!(SerializationFormat::JSON.code(), 2);
    assert_eq!(SerializationFormat::from_code(1), Some(SerializationFormat::MsgPack));
    assert_eq!(SerializationFormat::from_code(0), None);
    for t in PulseType::all() {
        assert_eq!(PulseType::from_code(t.code()), Some(t));
    }
    assert_eq!(MailAckType::from_code(0), None);
    assert_eq!(MailAckType::from_code(3), Some(MailAckType::Requeue));
    assert_eq!(UnauthorizedError::from_code(6), Some(UnauthorizedError::TemporaryBan));
    assert_eq!(UnauthorizedError::from_code(7), None);
    assert_eq!(ConnectFailedError::from_code(3), Some(ConnectFailedError::ServiceDegraded));
    assert_eq!(ConnectFailedError::from_code(4), None);
    assert_eq!(PulseErrorReason::from_code(4), None);
}
