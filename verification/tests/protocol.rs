use nova::render::LoweredPrompt;
use nova::state::{AwsEnv, Keymap, PromptEnv, PromptState};
use nova::worker::protocol::{
    decode_client_record, decode_worker_record, encode_client_record, encode_worker_record,
    ClientRecord, FrameDecoder, ProtocolError, RenderRequest, RenderStatus, WorkerRecord,
    FIELD_SEPARATOR, RECORD_SEPARATOR, VERSION,
};

fn plain_state(cwd: &str) -> PromptState {
    PromptState {
        cwd: cwd.to_string(),
        exit_status: 0,
        duration_ms: None,
        time: None,
        columns: 80,
        keymap: Keymap::Main,
        env: PromptEnv::default(),
    }
}

#[test]
fn round_trips_render_requests() {
    let record = ClientRecord::Render(RenderRequest {
        generation: 42,
        state: PromptState {
            cwd: "/tmp/nova".to_string(),
            exit_status: 1,
            duration_ms: Some(123),
            time: Some("11:16:42".to_string()),
            columns: 80,
            keymap: Keymap::ViCommand,
            env: PromptEnv {
                user: Some("nova".to_string()),
                host: Some("M4Pro".to_string()),
                path: Some("/opt/nova/bin:/usr/bin:/bin".to_string()),
                virtual_env: Some("/tmp/nova-venv".to_string()),
                in_nix_shell: Some("pure".to_string()),
                nix_shell_name: Some("nova".to_string()),
                nix_shell_level: Some("1".to_string()),
                home: Some("/home/nova".to_string()),
                aws: AwsEnv {
                    awsu_profile: Some("awsu".to_string()),
                    aws_vault: Some("vault".to_string()),
                    awsume_profile: Some("awsume".to_string()),
                    aws_profile: Some("profile".to_string()),
                    aws_sso_profile: Some("sso".to_string()),
                    aws_region: Some("ap-northeast-1".to_string()),
                    aws_default_region: Some("us-east-1".to_string()),
                    aws_config_file: Some("/tmp/aws-config".to_string()),
                    aws_shared_credentials_file: Some("/tmp/aws-credentials".to_string()),
                    aws_credentials_file: Some("/tmp/aws-credentials-legacy".to_string()),
                    aws_access_key_id_present: true,
                    aws_secret_access_key_present: true,
                    aws_session_token_present: true,
                },
                ..PromptEnv::default()
            },
        },
    });

    let encoded = encode_client_record(&record);
    let encoded = encoded.trim_end_matches(RECORD_SEPARATOR);

    assert_eq!(decode_client_record(encoded), Ok(record));
}

#[test]
fn round_trips_worker_prompt_records() {
    let record = WorkerRecord::Prompt {
        generation: 7,
        status: RenderStatus::Final,
        output: LoweredPrompt {
            prompt: "left\nright".to_string(),
            rprompt: "duration".to_string(),
        },
    };

    let encoded = encode_worker_record(&record);
    let encoded = encoded.trim_end_matches(RECORD_SEPARATOR);

    assert_eq!(decode_worker_record(encoded), Ok(record));
}

#[test]
fn round_trips_worker_update_records() {
    let record = WorkerRecord::Update {
        generation: 9,
        status: RenderStatus::Partial,
        output: LoweredPrompt {
            prompt: "❯ ".to_string(),
            rprompt: String::new(),
        },
    };

    let encoded = encode_worker_record(&record);

    assert_eq!(
        decode_worker_record(encoded.trim_end_matches(RECORD_SEPARATOR)),
        Ok(record)
    );
}

#[test]
fn decodes_render_requests_without_path_field() {
    let record = ClientRecord::Render(RenderRequest {
        generation: 7,
        state: plain_state("/tmp/nova"),
    });
    let encoded = encode_client_record(&record);
    let frame = encoded.trim_end_matches(RECORD_SEPARATOR);
    let legacy_frame = frame
        .strip_suffix(FIELD_SEPARATOR)
        .expect("empty PATH field should be last");

    assert_eq!(legacy_frame.split(FIELD_SEPARATOR).count(), 28);
    assert_eq!(decode_client_record(legacy_frame), Ok(record));
}

#[test]
fn strips_protocol_separators_from_client_path_field() {
    let record = ClientRecord::Render(RenderRequest {
        generation: 7,
        state: PromptState {
            env: PromptEnv {
                path: Some("a\0b\x1ec".to_string()),
                ..PromptEnv::default()
            },
            ..plain_state("/tmp/nova")
        },
    });
    let encoded = encode_client_record(&record);
    let frame = encoded.trim_end_matches(RECORD_SEPARATOR);
    let decoded = match decode_client_record(frame).expect("record should decode") {
        ClientRecord::Render(request) => request,
    };

    assert_eq!(decoded.state.env.path.as_deref(), Some("abc"));
}

#[test]
fn decodes_torn_frames() {
    let first = ClientRecord::Render(RenderRequest {
        generation: 1,
        state: plain_state("/one"),
    });
    let second = ClientRecord::Render(RenderRequest {
        generation: 2,
        state: PromptState {
            exit_status: 1,
            duration_ms: Some(5),
            time: Some("11:16:42".to_string()),
            columns: 40,
            ..plain_state("/two")
        },
    });
    let combined = format!(
        "{}{}",
        encode_client_record(&first),
        encode_client_record(&second)
    );

    for split_at in 0..combined.len() {
        let mut decoder = FrameDecoder::default();
        let mut frames = decoder.push(&combined[..split_at]);
        frames.extend(decoder.push(&combined[split_at..]));

        assert_eq!(frames.len(), 2);
        assert_eq!(decode_client_record(&frames[0]), Ok(first.clone()));
        assert_eq!(decode_client_record(&frames[1]), Ok(second.clone()));
    }
}

#[test]
fn strips_protocol_separators_from_output_fields() {
    let encoded = encode_worker_record(&WorkerRecord::Handshake {
        session_token: "a\0b\x1ec".to_string(),
        initial_wait_ms: 0,
    });

    assert_eq!(encoded, format!("H\0{}\0abc\x000\x1e", VERSION));
}

#[test]
fn handshake_carries_version_seven_and_the_wait_budget() {
    assert_eq!(VERSION, "7");
    let record = WorkerRecord::Handshake {
        session_token: "token".to_string(),
        initial_wait_ms: 120,
    };
    let encoded = encode_worker_record(&record);
    assert_eq!(encoded, "H\x007\x00token\x00120\x1e");
    assert_eq!(decode_worker_record(&encoded[..encoded.len() - 1]), Ok(record));
    assert!(decode_worker_record("H\x007\x00token").is_err());
    assert!(decode_worker_record("H\x007\x00token\x00soon").is_err());
}

#[test]
fn refuses_unknown_and_malformed_records() {
    assert_eq!(
        decode_client_record("X\0whatever"),
        Err(ProtocolError::UnknownRecord("X".to_string()))
    );
    assert!(matches!(
        decode_worker_record("P\07"),
        Err(ProtocolError::WrongFieldCount { .. })
    ));
    assert!(decode_client_record("").is_err());
}

#[test]
fn a_decoder_keeps_the_unfinished_tail() {
    let mut decoder = FrameDecoder::new();

    assert_eq!(decoder.push("a\x1eb"), ["a"]);
    assert_eq!(decoder.push("c\x1e\x1e"), ["bc", ""]);
    assert!(decoder.push("").is_empty());
}
