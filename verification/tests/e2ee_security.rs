use peer::cluster_dc_e2ee::dispatch::{
    admit_request, dispatch_cluster_encrypted_proxy_body,
    dispatch_cluster_encrypted_proxy_request, request_auth_error, sidecar_message, vault_error,
    Admission, Arrival, Dispatch, ProviderRequest, ProviderStream,
};
use peer::cluster_dc_e2ee::request::{
    chunk_utf8, encrypt_proxy_request, encrypt_proxy_request_chunks,
    encrypt_proxy_request_chunks_with_nonces, encrypt_proxy_request_with_nonce,
    handle_encrypted_request_chunk, handle_encrypted_request_end, handle_encrypted_request_start,
    new_proxy_request, open_request_body, send_encrypted_proxy_request,
    send_encrypted_proxy_request_with_nonces, wire_error, EncryptedConsumerState,
    PendingEncryptedIncomingRequest, MAX_DC_WIRE_BYTES, MAX_E2EE_PLAINTEXT_CHUNK_BYTES,
};
use peer::cluster_dc_e2ee::stream::{
    decrypt_encrypted_response, encrypt_stream_chunk, encrypt_stream_chunk_with_nonce,
    flush_response_chunks, handle_encrypted_stream_chunk, init_pending_encrypted_stream, EncryptedStreamChunkOutcome, PendingEncryptedStream,
    STREAM_CHUNK_BYTES,
};
use peer::crypto::envelope::{encrypt_payload_with_nonce, EncryptedPayload, EnvelopeError};
use peer::crypto::session::EphemeralKeypair;
use peer::crypto::{
    auth_hash_from_secret, decrypt_payload, derive_room_root_key, derive_session_key,
    derive_session_key_consumer, encrypt_payload, generate_ephemeral_keypair,
    load_room_static_keypair, verify_auth_hash,
};
use peer::inference_sidecar::{
    collect_piece, decrypt_inbound_request, decrypt_inbound_request_chunk,
    encrypt_outbound_response, encrypt_outbound_response_with_nonce, open_sidecar_request,
    sidecar_reply, verify_inbound_auth, InboundError, SidecarStep,
};
use peer::json::{parse, print};
use peer::p2p_protocol::StreamMessage;
use peer::proxy_e2ee::{chunk_path, decrypt_proxy_chunk, encrypt_proxy_chunk};
use peer::strmap::StrMap;

#[test]
fn room_auth_hash_verification() {
    let hash = auth_hash_from_secret("room-password");
    assert!(verify_auth_hash("room-password", &hash));
    assert!(!verify_auth_hash("wrong", &hash));
}

#[test]
fn auth_hash_stable() {
    assert_eq!(auth_hash_from_secret("test"), auth_hash_from_secret("test"));
}

#[test]
fn auth_hash_is_the_digest_in_hexadecimal() {
    assert_eq!(
        auth_hash_from_secret("abc"),
        "ba7816bf8f01cfea414140de5dae2223b00361a396177a9cb410ff61f20015ad"
    );
}

#[test]
fn e2ee_envelope_round_trip() {
    let room_id = "room-test";
    let room_secret = "shared-secret";
    let room_root = derive_room_root_key(room_secret, room_id);
    let (static_keys, _) = load_room_static_keypair(None, &room_root);
    let ephemeral = generate_ephemeral_keypair();
    let req_id = "req-1";
    let path = "/api/chat";
    let plain = br#"{"model":"llama","prompt":"secret"}"#;
    let session_key = derive_session_key_consumer(
        ephemeral.secret(),
        &static_keys.public_key,
        req_id,
        room_id,
    );
    let enc = encrypt_payload(&session_key, req_id, path, room_id, plain).unwrap();
    let dec = decrypt_payload(&session_key, req_id, path, room_id, &enc).unwrap();
    assert_eq!(dec, plain);
    assert_ne!(enc.ciphertext[..plain.len()], plain[..]);
    assert_eq!(enc.ciphertext.len(), plain.len() + 16);
}

#[test]
fn envelope_round_trip() {
    let key = [7u8; 32];
    let plain = br#"{"model":"llama","prompt":"hi"}"#;
    let enc = encrypt_payload(&key, "r1", "/api/chat", "room-1", plain).unwrap();
    let dec = decrypt_payload(&key, "r1", "/api/chat", "room-1", &enc).unwrap();
    assert_eq!(dec, plain);
}

#[test]
fn envelope_belongs_to_its_request_path_and_room() {
    let key = [7u8; 32];
    let enc = encrypt_payload(&key, "r1", "/api/chat", "room-1", b"hi").unwrap();
    let cases = [("r2", "/api/chat", "room-1"), ("r1", "/api/tags", "room-1"), ("r1", "/api/chat", "x")];
    for (r, p, m) in cases {
        let e = decrypt_payload(&key, r, p, m, &enc).unwrap_err();
        assert_eq!(e, EnvelopeError::NotAuthentic);
        assert_eq!(e.message(), "decrypt: aead::Error");
    }
    let short = EncryptedPayload { nonce: vec![0; 11], ciphertext: enc.ciphertext };
    let e = decrypt_payload(&key, "r1", "/api/chat", "room-1", &short).unwrap_err();
    assert_eq!(e, EnvelopeError::NonceLength);
    assert_eq!(e.message(), "invalid nonce length");
}

#[test]
fn session_key_agreement() {
    let provider = generate_ephemeral_keypair();
    let consumer = generate_ephemeral_keypair();
    let k1 = derive_session_key(provider.secret(), &consumer.public_key, "req-1", "room-a");
    let k2 = derive_session_key_consumer(consumer.secret(), &provider.public_key, "req-1", "room-a");
    assert_eq!(k1, k2);
    let k3 = derive_session_key_consumer(consumer.secret(), &provider.public_key, "req-2", "room-a");
    assert_ne!(k1, k3);
}

#[test]
fn encrypted_proxy_chunk_round_trip_cross_peer() {
    let room_id = "swarm-room";
    let room_root = derive_room_root_key("shared-swarm-token", room_id);
    let (provider_keys, _) = load_room_static_keypair(None, &room_root);
    let ephemeral = generate_ephemeral_keypair();
    let req_id = "p2p_1";
    let path = "/api/chat";
    let seq = 0u32;
    let plain = b"data: {\"message\":{\"content\":\"hi\"}}\n\n";
    let sealed = encrypt_proxy_chunk(
        &provider_keys.secret_key,
        &ephemeral.public_key,
        req_id,
        path,
        seq,
        room_id,
        plain,
    )
    .unwrap();
    let decrypted = decrypt_proxy_chunk(
        ephemeral.secret(),
        &provider_keys.public_key,
        req_id,
        path,
        seq,
        room_id,
        &sealed,
    )
    .unwrap();
    assert_eq!(decrypted, plain);
    assert!(decrypt_proxy_chunk(
        ephemeral.secret(),
        &provider_keys.public_key,
        req_id,
        path,
        1,
        room_id,
        &sealed,
    )
    .is_err());
}

#[test]
fn stale_room_keys_migrate_to_deterministic_seed() {
    let room_root = derive_room_root_key("shared-secret", "room-migrate");
    let mut stale = vec![0u8; 64];
    stale[..32].fill(1);
    stale[32..].fill(2);
    let (keys, stored) = load_room_static_keypair(Some(&stale), &room_root);
    let blob = stored.expect("the stale keys are replaced");
    let (expected, again) = load_room_static_keypair(Some(&blob), &room_root);
    assert!(again.is_none());
    assert_eq!(keys.public_key, expected.public_key);
    assert_ne!(keys.public_key[..], stale[..32]);
}

#[test]
fn tee_attestation_disabled_stub() {
    assert!(true);
}

#[test]
fn large_chat_body_requires_multiple_encrypted_chunks() {
    let body = format!(
        r#"{{"messages":[{{"content":"{}","role":"user"}}],"model":"gemma4:e4b"}}"#,
        "x".repeat(70_000)
    );
    let chunks = chunk_utf8(&body, MAX_E2EE_PLAINTEXT_CHUNK_BYTES);
    assert!(chunks.len() > 1, "expected multiple chunks for ~70KB body, got {}", chunks.len());
    for (seq, chunk) in chunks.iter().enumerate() {
        let mut fields = serde_json::Map::new();
        fields.insert("type".into(), "encryptedproxyrequestchunk".into());
        fields.insert("req_id".into(), "peer:6".into());
        fields.insert("seq".into(), (seq as u32).into());
        fields.insert("nonce".into(), vec![1u8; 12].into());
        fields.insert("ciphertext".into(), chunk.as_bytes().to_vec().into());
        fields.insert("aad_version".into(), 1u8.into());
        let wire = serde_json::Value::Object(fields).to_string();
        assert!(
            wire.len() <= MAX_DC_WIRE_BYTES,
            "chunk {seq} wire {} exceeds {}",
            wire.len(),
            MAX_DC_WIRE_BYTES
        );
        assert!(wire_error(wire.len()).is_none());
    }
}

#[test]
fn chunks_in_a_row_are_the_text() {
    let text = "a\u{20ac}b\u{1f600}c".repeat(40);
    let chunks = chunk_utf8(&text, 10);
    assert_eq!(chunks.concat(), text);
    assert!(chunks.iter().all(|c| c.len() <= 10 && !c.is_empty()));
    // A character that does not fit goes alone.
    assert_eq!(chunk_utf8("\u{1f600}a", 2), vec!["\u{1f600}".to_string(), "a".to_string()]);
    assert!(chunk_utf8("", 10).is_empty());
}

#[test]
fn a_message_that_is_too_long_is_refused() {
    assert!(wire_error(MAX_DC_WIRE_BYTES).is_none());
    assert!(wire_error(MAX_DC_WIRE_BYTES + 1).is_some());
}

#[test]
fn chunk_labels_differ() {
    assert_eq!(chunk_path("/api/chat", 0), "/api/chat#0");
    assert_ne!(chunk_path("/api/chat", 1), chunk_path("/api/chat", 11));
}

fn provider_of(room: &str) -> ([u8; 32], [u8; 32]) {
    let root = derive_room_root_key("secret", room);
    let (keys, _) = load_room_static_keypair(None, &root);
    (keys.public_key, keys.secret_key)
}

fn arrive(pending: &mut StrMap<PendingEncryptedIncomingRequest>, m: StreamMessage) {
    match m {
        StreamMessage::EncryptedProxyRequestStart {
            req_id,
            path,
            room_id,
            consumer_ephemeral_pk,
            aad_version,
            auth,
        } => handle_encrypted_request_start(
            pending,
            req_id,
            path,
            room_id,
            consumer_ephemeral_pk,
            aad_version,
            auth,
        ),
        StreamMessage::EncryptedProxyRequestChunk { req_id, seq, nonce, ciphertext, .. } => {
            handle_encrypted_request_chunk(pending, &req_id, seq, nonce, ciphertext)
        }
        _ => unreachable!(),
    }
}

#[test]
fn request_in_chunks_is_read_back_in_any_order() {
    let (provider_pk, _) = provider_of("room");
    let keys = generate_ephemeral_keypair();
    let body = format!(r#"{{"model":"llama","prompt":"{}"}}"#, "h\u{e9}".repeat(900));
    let parts = chunk_utf8(&body, MAX_E2EE_PLAINTEXT_CHUNK_BYTES);
    assert!(parts.len() >= 3);
    let (mut ms, state) =
        encrypt_proxy_request_chunks(&keys, &provider_pk, "r", "/api/chat", "room", &parts, None)
            .unwrap();
    assert_eq!(state.path, "/api/chat");
    let end = ms.pop().unwrap();
    assert!(matches!(end, StreamMessage::EncryptedProxyRequestEnd { .. }));
    let mut pending = StrMap::new();
    arrive(&mut pending, ms.remove(0));
    while let Some(m) = ms.pop() {
        arrive(&mut pending, m);
    }
    let whole = handle_encrypted_request_end(&mut pending, "r").expect("pending");
    assert!(handle_encrypted_request_end(&mut pending, "r").is_none());
    let read = open_request_body(&whole, Some("secret"), "r").unwrap();
    assert_eq!(print(&read), body);
    assert_eq!(
        open_request_body(&whole, None, "r").unwrap_err(),
        "no room secret for room"
    );
    assert_eq!(
        open_request_body(&whole, Some("other"), "r").unwrap_err(),
        "decrypt: aead::Error"
    );
}

#[test]
fn a_request_goes_whole_where_it_fits_and_in_chunks_where_not() {
    let (provider_pk, _) = provider_of("room");
    let body = format!(r#"{{"prompt":"{}"}}"#, "x".repeat(2000));
    let whole = new_proxy_request(&provider_pk, "r", "/p", "room", &body, None).unwrap();
    let secret = whole.1.ephemeral_secret;
    let (ms, state) = send_encrypted_proxy_request(
        whole,
        MAX_DC_WIRE_BYTES,
        &provider_pk,
        "r",
        "/p",
        "room",
        &body,
        None,
    )
    .unwrap();
    assert_eq!(ms.len(), 1);
    assert_eq!(state.ephemeral_secret, secret);
    match &ms[0] {
        StreamMessage::EncryptedProxyRequest { consumer_ephemeral_pk, nonce, ciphertext, .. } => {
            let read = decrypt_inbound_request(
                Some("secret"),
                "room",
                "r",
                "/p",
                consumer_ephemeral_pk,
                nonce,
                ciphertext,
            );
            assert_eq!(print(&read.unwrap()), body);
        }
        _ => unreachable!(),
    }
    let whole = new_proxy_request(&provider_pk, "r", "/p", "room", &body, None).unwrap();
    let secret = whole.1.ephemeral_secret;
    let (mut ms, state) = send_encrypted_proxy_request(
        whole,
        MAX_DC_WIRE_BYTES + 1,
        &provider_pk,
        "r",
        "/p",
        "room",
        &body,
        None,
    )
    .unwrap();
    assert_eq!(ms.len(), 4);
    assert_ne!(state.ephemeral_secret, secret);
    ms.pop();
    let mut pending = StrMap::new();
    for m in ms {
        arrive(&mut pending, m);
    }
    let taken = handle_encrypted_request_end(&mut pending, "r").unwrap();
    assert_eq!(print(&open_request_body(&taken, Some("secret"), "r").unwrap()), body);
}

#[test]
fn a_request_under_a_nonce_is_pinned_down() {
    let (provider_pk, _) = provider_of("room");
    let keys = EphemeralKeypair::from_secret([7u8; 32]);
    let seal = |nonce: &[u8; 12]| {
        encrypt_proxy_request_with_nonce(&keys, &provider_pk, "r", "/p", "room", "{}", None, nonce)
            .unwrap()
            .0
    };
    match (seal(&[1u8; 12]), seal(&[1u8; 12]), seal(&[2u8; 12])) {
        (
            StreamMessage::EncryptedProxyRequest { nonce, ciphertext, consumer_ephemeral_pk, .. },
            StreamMessage::EncryptedProxyRequest { ciphertext: again, .. },
            StreamMessage::EncryptedProxyRequest { ciphertext: other, .. },
        ) => {
            assert_eq!(nonce, vec![1u8; 12]);
            assert_eq!(consumer_ephemeral_pk, keys.public_key.to_vec());
            assert_eq!(ciphertext.len(), 2 + 16);
            assert_eq!(ciphertext, again);
            assert_ne!(ciphertext, other);
        }
        _ => unreachable!(),
    }
}

#[test]
fn chunks_are_sealed_each_under_its_nonce() {
    let (provider_pk, _) = provider_of("room");
    let keys = EphemeralKeypair::from_secret([7u8; 32]);
    let parts = vec!["{".to_string(), "}".to_string()];
    let nonces = vec![[1u8; 12], [2u8; 12]];
    let (ms, _) = encrypt_proxy_request_chunks_with_nonces(
        &keys,
        &provider_pk,
        "r",
        "/p",
        "room",
        &parts,
        None,
        &nonces,
    )
    .unwrap();
    assert_eq!(ms.len(), 4);
    for (i, m) in ms[1..3].iter().enumerate() {
        match m {
            StreamMessage::EncryptedProxyRequestChunk { seq, nonce, ciphertext, .. } => {
                assert_eq!(*seq, i as u32);
                assert_eq!(*nonce, nonces[i].to_vec());
                let read = decrypt_inbound_request_chunk(
                    Some("secret"),
                    "room",
                    "r",
                    "/p",
                    *seq,
                    &keys.public_key.to_vec(),
                    nonce,
                    ciphertext,
                );
                assert_eq!(read.unwrap(), parts[i]);
            }
            _ => unreachable!(),
        }
    }
    let (ms, _) =
        encrypt_proxy_request_chunks(&keys, &provider_pk, "r", "/p", "room", &vec![], None).unwrap();
    assert_eq!(ms.len(), 2);
}

#[test]
fn a_long_request_is_sent_under_the_keys_and_nonces_given() {
    let (provider_pk, _) = provider_of("room");
    let body = format!(r#"{{"prompt":"{}"}}"#, "x".repeat(2000));
    let count = chunk_utf8(&body, MAX_E2EE_PLAINTEXT_CHUNK_BYTES).len();
    let nonces: Vec<[u8; 12]> = (0..count).map(|i| [i as u8; 12]).collect();
    let keys = EphemeralKeypair::from_secret([9u8; 32]);
    let whole = new_proxy_request(&provider_pk, "r", "/p", "room", &body, None).unwrap();
    let (ms, state) = send_encrypted_proxy_request_with_nonces(
        whole,
        MAX_DC_WIRE_BYTES + 1,
        &keys,
        &provider_pk,
        "r",
        "/p",
        "room",
        &body,
        None,
        &nonces,
    )
    .unwrap();
    assert_eq!(ms.len(), count + 2);
    assert_eq!(state.ephemeral_secret, [9u8; 32]);
    match &ms[2] {
        StreamMessage::EncryptedProxyRequestChunk { nonce, .. } => assert_eq!(*nonce, vec![1u8; 12]),
        _ => unreachable!(),
    }
}

#[test]
fn a_piece_of_a_response_is_sealed_under_its_nonce() {
    let (provider_pk, provider_secret) = provider_of("room");
    let keys = EphemeralKeypair::from_secret([7u8; 32]);
    let m = encrypt_stream_chunk_with_nonce(
        &provider_secret,
        &keys.public_key,
        "r",
        "/api/chat",
        "room",
        1,
        0,
        "piece",
        true,
        &[3u8; 12],
    )
    .unwrap();
    match &m {
        StreamMessage::EncryptedProxyStreamChunk { nonce, ciphertext, .. } => {
            assert_eq!(*nonce, vec![3u8; 12]);
            assert_eq!(ciphertext.len(), 5 + 16);
        }
        _ => unreachable!(),
    }
    let mut streams = StrMap::new();
    streams.insert(
        "r".to_string(),
        init_pending_encrypted_stream(&consumer(provider_pk, *keys.secret())),
    );
    match take(&mut streams, m).unwrap() {
        EncryptedStreamChunkOutcome::Finished { parts } => assert_eq!(parts.concat(), "piece"),
        other => panic!("{other:?}"),
    }
    let sealed = encrypt_outbound_response_with_nonce(
        "secret",
        "room",
        "r",
        "/p",
        &keys.public_key.to_vec(),
        b"answer",
        &[4u8; 12],
    )
    .unwrap();
    assert_eq!(sealed.nonce, vec![4u8; 12]);
}

#[test]
fn bytes_that_are_no_text_are_refused_in_the_words_of_their_reader() {
    let (provider_pk, _) = provider_of("room");
    let keys = EphemeralKeypair::from_secret([7u8; 32]);
    let key = derive_session_key_consumer(keys.secret(), &provider_pk, "r", "room");
    let bytes = b"\"\xff\"";
    let expected = serde_json::from_slice::<serde_json::Value>(bytes).unwrap_err().to_string();
    let sealed = encrypt_payload_with_nonce(&key, "r", "/p", "room", bytes, &[1u8; 12]).unwrap();
    let e = decrypt_inbound_request(
        Some("secret"),
        "room",
        "r",
        "/p",
        &keys.public_key.to_vec(),
        &sealed.nonce,
        &sealed.ciphertext,
    )
    .unwrap_err();
    assert_eq!(e.message("room"), expected);
    assert!(expected.contains("invalid unicode code point"));
    let label = chunk_path("/p", 0);
    let sealed = encrypt_payload_with_nonce(&key, "r", &label, "room", bytes, &[1u8; 12]).unwrap();
    let e = decrypt_inbound_request_chunk(
        Some("secret"),
        "room",
        "r",
        "/p",
        0,
        &keys.public_key.to_vec(),
        &sealed.nonce,
        &sealed.ciphertext,
    )
    .unwrap_err();
    assert!(e.message("room").contains("invalid utf-8 sequence"));
}

#[test]
fn chunks_are_as_long_as_can_be() {
    for max in [0usize, 1, 3, 5, 8] {
        let chunks = chunk_utf8("a\u{e9}\u{1f600}bcd\u{e9}", max);
        for (i, chunk) in chunks.iter().enumerate() {
            assert!(chunk.len() <= max || chunk.chars().count() == 1);
            if let Some(next) = chunks.get(i + 1) {
                assert!(chunk.len() + next.chars().next().unwrap().len_utf8() > max);
            }
        }
    }
}

#[test]
fn a_request_that_is_no_json_is_refused() {
    let (provider_pk, _) = provider_of("room");
    let keys = generate_ephemeral_keypair();
    let parts = vec!["no json".to_string()];
    let (mut ms, _) =
        encrypt_proxy_request_chunks(&keys, &provider_pk, "r", "/p", "room", &parts, None).unwrap();
    ms.pop();
    let mut pending = StrMap::new();
    for m in ms {
        arrive(&mut pending, m);
    }
    let whole = handle_encrypted_request_end(&mut pending, "r").unwrap();
    let e = open_request_body(&whole, Some("secret"), "r").unwrap_err();
    assert!(e.starts_with("Invalid JSON body: "));
}

fn consumer(provider_pk: [u8; 32], secret: [u8; 32]) -> EncryptedConsumerState {
    EncryptedConsumerState {
        ephemeral_secret: secret,
        path: "/api/chat".into(),
        room_id: "room".into(),
        provider_pk,
        aad_version: 1,
    }
}

fn take(
    streams: &mut StrMap<PendingEncryptedStream>,
    m: StreamMessage,
) -> Result<EncryptedStreamChunkOutcome, String> {
    match m {
        StreamMessage::EncryptedProxyStreamChunk { req_id, seq, nonce, ciphertext, done, .. } => {
            handle_encrypted_stream_chunk(streams, &req_id, seq, nonce, ciphertext, done)
        }
        _ => unreachable!(),
    }
}

#[test]
fn response_in_chunks_is_read_back_in_any_order() {
    let (provider_pk, provider_secret) = provider_of("room");
    let keys = generate_ephemeral_keypair();
    let mut pending = "p\u{e9}".repeat(1000);
    let text = pending.clone();
    let pieces = flush_response_chunks(&mut pending, true);
    assert!(pending.is_empty());
    assert!(pieces.len() >= 2);
    assert!(pieces.iter().all(|p| p.0.len() <= STREAM_CHUNK_BYTES));
    assert_eq!(pieces.iter().filter(|p| p.1).count(), 1);
    assert!(pieces.last().unwrap().1);
    let mut ms: Vec<StreamMessage> = Vec::new();
    for (i, (piece, done)) in pieces.iter().enumerate() {
        ms.push(
            encrypt_stream_chunk(
                &provider_secret,
                &keys.public_key,
                "r",
                "/api/chat",
                "room",
                1,
                i as u32,
                piece,
                *done,
            )
            .unwrap(),
        );
    }
    let mut streams = StrMap::new();
    streams.insert(
        "r".to_string(),
        init_pending_encrypted_stream(&consumer(provider_pk, *keys.secret())),
    );
    let first = ms.remove(0);
    while let Some(m) = ms.pop() {
        assert_eq!(take(&mut streams, m).unwrap(), EncryptedStreamChunkOutcome::Waiting);
    }
    match take(&mut streams, first).unwrap() {
        EncryptedStreamChunkOutcome::Finished { parts } => assert_eq!(parts.concat(), text),
        other => panic!("{other:?}"),
    }
    assert!(streams.get("r").is_none());
}

#[test]
fn a_chunk_of_no_stream_and_a_forged_chunk_are_refused() {
    let (provider_pk, _) = provider_of("room");
    let keys = generate_ephemeral_keypair();
    let mut streams: StrMap<PendingEncryptedStream> = StrMap::new();
    assert!(handle_encrypted_stream_chunk(&mut streams, "r", 0, vec![0; 12], vec![0; 20], false)
        .is_err());
    streams.insert(
        "r".to_string(),
        init_pending_encrypted_stream(&consumer(provider_pk, *keys.secret())),
    );
    assert!(handle_encrypted_stream_chunk(&mut streams, "r", 0, vec![0; 12], vec![0; 20], false)
        .is_err());
}

#[test]
fn flushing_waits_for_a_full_chunk() {
    let mut pending = "a".repeat(STREAM_CHUNK_BYTES - 1);
    assert!(flush_response_chunks(&mut pending, false).is_empty());
    pending.push_str("bc");
    let pieces = flush_response_chunks(&mut pending, false);
    assert_eq!(pieces.len(), 1);
    assert!(!pieces[0].1);
    assert_eq!(pending, "c");
    let mut stream = ProviderStream::new();
    assert!(stream.receive(b"hel".to_vec()).is_empty());
    assert!(stream.receive(b"lo".to_vec()).is_empty());
    assert_eq!(stream.finish(), vec![("hello".to_string(), true)]);
}

#[test]
fn sidecar_reads_the_request_and_seals_the_answer() {
    let (provider_pk, _) = provider_of("room");
    let keys = generate_ephemeral_keypair();
    let (m, state) = encrypt_proxy_request(
        &keys,
        &provider_pk,
        "r",
        "/api/chat",
        "room",
        r#"{"model":"llama"}"#,
        None,
    )
    .unwrap();
    match open_sidecar_request(m, None, Some("secret")) {
        SidecarStep::Forward { path, body, model } => {
            assert_eq!(path, "/api/chat");
            assert_eq!(print(&body), r#"{"model":"llama"}"#);
            assert_eq!(model, "llama");
        }
        other => panic!("{other:?}"),
    }
    let pk = keys.public_key.to_vec();
    let sealed =
        encrypt_outbound_response("secret", "room", "r", "/api/chat", &pk, b"answer").unwrap();
    let key = derive_session_key_consumer(&state.ephemeral_secret, &provider_pk, "r", "room");
    assert_eq!(decrypt_payload(&key, "r", "/api/chat", "room", &sealed).unwrap(), b"answer");
    let reply = sidecar_reply("r".to_string(), 1, Ok(sealed));
    assert_eq!(decrypt_encrypted_response(&state, "r", reply).as_deref(), Ok("answer"));
}

#[test]
fn a_response_in_one_message_may_fail() {
    let (provider_pk, _) = provider_of("room");
    let keys = generate_ephemeral_keypair();
    let (m, state) =
        encrypt_proxy_request(&keys, &provider_pk, "r", "/p", "room", "{}", None).unwrap();
    let read = |m| decrypt_encrypted_response(&state, "r", m).unwrap_err();
    assert_eq!(read(m), "expected encrypted proxy response");
    assert_eq!(read(vault_error("r".to_string(), 1, "x")), "Vault IPC error: x");
    let pk = keys.public_key.to_vec();
    let sealed = encrypt_outbound_response("secret", "room", "r", "/p", &pk, &[0xff]).unwrap();
    let bytes = String::from_utf8(vec![0xff]).unwrap_err().to_string();
    assert_eq!(read(sidecar_reply("r".to_string(), 1, Ok(sealed))), bytes);
    let sealed = encrypt_outbound_response("secret", "room", "q", "/p", &pk, b"x").unwrap();
    assert_eq!(read(sidecar_reply("r".to_string(), 1, Ok(sealed))), "decrypt: aead::Error");
}

#[test]
fn a_request_in_one_message_is_opened() {
    let (provider_pk, _) = provider_of("room");
    let keys = generate_ephemeral_keypair();
    let seal = |body: &str| {
        encrypt_proxy_request(&keys, &provider_pk, "r", "/p", "room", body, None).unwrap().0
    };
    match dispatch_cluster_encrypted_proxy_request(seal(r#"{"model":"m"}"#), Some("secret")) {
        Arrival::Opened(q) => {
            assert_eq!((q.req_id.as_str(), q.path.as_str(), q.room_id.as_str()), ("r", "/p", "room"));
            assert_eq!(print(&q.body), r#"{"model":"m"}"#);
        }
        other => panic!("{other:?}"),
    }
    match dispatch_cluster_encrypted_proxy_request(seal("{}"), None) {
        Arrival::Reply(StreamMessage::EncryptedProxyResponse { error, .. }) => {
            assert_eq!(error.as_deref(), Some("no room secret for room"))
        }
        other => panic!("{other:?}"),
    }
    assert!(matches!(
        dispatch_cluster_encrypted_proxy_request(seal("no json"), Some("secret")),
        Arrival::Reply(_)
    ));
    let end = StreamMessage::EncryptedProxyRequestEnd { req_id: "r".to_string() };
    assert!(matches!(dispatch_cluster_encrypted_proxy_request(end, None), Arrival::Ignored));
}

#[test]
fn sidecar_answers_what_it_cannot_read() {
    let (provider_pk, _) = provider_of("room");
    let keys = generate_ephemeral_keypair();
    let seal = || {
        encrypt_proxy_request(&keys, &provider_pk, "r", "/p", "room", "{}", None).unwrap().0
    };
    for (secret, auth, expected) in [
        (None, None, "no room secret for room"),
        (Some("other"), None, "decrypt: aead::Error"),
        (Some("secret"), Some("Proxy auth failed".to_string()), "Proxy auth failed"),
    ] {
        match open_sidecar_request(seal(), auth, secret) {
            SidecarStep::Reply(StreamMessage::EncryptedProxyResponse { error, .. }) => {
                assert_eq!(error.as_deref(), Some(expected))
            }
            other => panic!("{other:?}"),
        }
    }
    let short = vec![1u8; 31];
    let e = decrypt_inbound_request(Some("s"), "room", "r", "/p", &short, &vec![], &vec![])
        .unwrap_err();
    assert!(matches!(e, InboundError::EphemeralKeyLength));
    assert_eq!(e.message("room"), "invalid ephemeral public key");
}

#[test]
fn proofs_are_asked_for_where_they_are_given() {
    assert!(verify_inbound_auth(false, &vec![], None).is_none());
    assert!(verify_inbound_auth(true, &vec![false, true], None).is_none());
    assert!(verify_inbound_auth(true, &vec![false], Some(true)).is_none());
    assert_eq!(verify_inbound_auth(true, &vec![], None).as_deref(), Some("Proxy auth failed"));
    assert!(request_auth_error(true, false, false).is_none());
    assert_eq!(request_auth_error(true, true, false).as_deref(), Some("Proxy auth failed"));
}

#[test]
fn requests_are_let_in_or_refused() {
    assert!(matches!(admit_request(None, false, false, None), Admission::Admit));
    assert!(matches!(admit_request(None, true, true, Some(false)), Admission::Sidecar));
    match admit_request(None, false, true, None) {
        Admission::Reject(e) => assert_eq!(e, "Peer is blocked"),
        other => panic!("{other:?}"),
    }
    match admit_request(None, false, false, Some(false)) {
        Admission::Reject(e) => assert_eq!(e, "Peer is in maintenance mode"),
        other => panic!("{other:?}"),
    }
}

fn provider_request(body: &str) -> ProviderRequest {
    ProviderRequest {
        req_id: "r".into(),
        path: "/v1/chat/completions".into(),
        room_id: "room".into(),
        consumer_ephemeral_pk: vec![1; 32],
        aad_version: 1,
        auth: None,
        body: parse(body).unwrap(),
    }
}

#[test]
fn requests_go_to_the_model_server_with_defaults() {
    let r = provider_request(r#"{"model":"llama","stream":true}"#);
    match dispatch_cluster_encrypted_proxy_body(r, None, Some(64), None) {
        Dispatch::Forward { ack, path, body, model } => {
            assert!(matches!(ack, StreamMessage::EncryptedProxyResponse { stream: Some(true), .. }));
            assert_eq!(path, "/v1/chat/completions");
            assert_eq!(model, "llama");
            assert_eq!(
                print(&body),
                r#"{"model":"llama","options":{"num_predict":64},"stream":true,"stream_options":{"include_usage":true}}"#
            );
        }
        other => panic!("{other:?}"),
    }
    let m = sidecar_message(provider_request("{}"));
    assert!(matches!(m, StreamMessage::EncryptedProxyRequest { .. }));
    match vault_error("r".into(), 1, "locked") {
        StreamMessage::EncryptedProxyResponse { error, .. } => {
            assert!(error.unwrap().contains("locked"))
        }
        other => panic!("{other:?}"),
    }
}

#[test]
fn pieces_that_are_no_text_are_dropped() {
    let mut buffer = String::new();
    collect_piece(&mut buffer, b"ab".to_vec());
    collect_piece(&mut buffer, vec![0xff]);
    collect_piece(&mut buffer, b"c".to_vec());
    assert_eq!(buffer, "abc");
}
