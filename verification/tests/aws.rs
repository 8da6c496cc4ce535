use nova::config::SegmentConfig;
use nova::segments::runtime::aws::{aws_config_file_path, aws_credentials_file_path, parse_ini};
use nova::segments::runtime::render_aws;
use nova::state::{AwsEnv, ProcessEnv, PromptEnv};

fn env(aws: AwsEnv) -> PromptEnv {
    PromptEnv {
        aws,
        ..PromptEnv::default()
    }
}

fn with_files(aws: AwsEnv, config: Option<&str>, credentials: Option<&str>) -> PromptEnv {
    PromptEnv {
        aws,
        process: ProcessEnv {
            aws_config: config.map(str::to_string),
            aws_credentials: credentials.map(str::to_string),
            ..ProcessEnv::default()
        },
        ..PromptEnv::default()
    }
}

#[test]
fn renders_aws_region_with_env_credentials() {
    let segment = render_aws(
        &env(AwsEnv {
            aws_region: Some("ap-northeast-1".to_string()),
            aws_access_key_id_present: true,
            ..AwsEnv::default()
        }),
        &SegmentConfig::default(),
    )
    .expect("aws segment should render");

    assert_eq!(segment.id, "aws");
    assert_eq!(segment.text, "\u{e33d} (ap-northeast-1)");
    assert_eq!(segment.style.fg.as_deref(), Some("yellow"));
    assert!(segment.style.bold);
}

#[test]
fn renders_aws_without_credentials_by_default() {
    let segment = render_aws(
        &env(AwsEnv {
            aws_profile: Some("astronauts".to_string()),
            aws_region: Some("ap-northeast-1".to_string()),
            ..AwsEnv::default()
        }),
        &SegmentConfig::default(),
    )
    .expect("aws segment should render");

    assert_eq!(segment.text, "\u{e33d} astronauts (ap-northeast-1)");
}

#[test]
fn renders_aws_with_configured_format_hiding_region() {
    let config = SegmentConfig {
        format: Some("$symbol$profile".to_string()),
        ..SegmentConfig::default()
    };
    let segment = render_aws(
        &env(AwsEnv {
            aws_profile: Some("astronauts".to_string()),
            aws_region: Some("ap-northeast-1".to_string()),
            ..AwsEnv::default()
        }),
        &config,
    )
    .expect("aws segment should render");

    assert_eq!(segment.text, "\u{e33d} astronauts");
}

#[test]
fn renders_aws_optional_format_groups_only_when_variables_are_present() {
    let config = SegmentConfig {
        format: Some("$symbol$profile[ ($region)]".to_string()),
        ..SegmentConfig::default()
    };
    let segment = render_aws(
        &env(AwsEnv {
            aws_profile: Some("astronauts".to_string()),
            ..AwsEnv::default()
        }),
        &config,
    )
    .expect("aws segment should render");

    assert_eq!(segment.text, "\u{e33d} astronauts");
}

#[test]
fn renders_optional_groups_when_their_variables_are_present() {
    let config = SegmentConfig {
        format: Some("$symbol$profile[ ($region)]".to_string()),
        ..SegmentConfig::default()
    };
    let segment = render_aws(
        &env(AwsEnv {
            aws_profile: Some("astronauts".to_string()),
            aws_region: Some("eu-west-1".to_string()),
            ..AwsEnv::default()
        }),
        &config,
    )
    .expect("aws segment should render");

    assert_eq!(segment.text, "\u{e33d} astronauts (eu-west-1)");
}

#[test]
fn omits_aws_when_configured_format_renders_empty() {
    let config = SegmentConfig {
        icon: Some(String::new()),
        format: Some("$symbol".to_string()),
        ..SegmentConfig::default()
    };

    assert_eq!(
        render_aws(
            &env(AwsEnv {
                aws_profile: Some("astronauts".to_string()),
                ..AwsEnv::default()
            }),
            &config,
        ),
        None
    );
}

#[test]
fn omits_aws_without_credentials_when_force_display_is_false() {
    let config = SegmentConfig {
        force_display: Some(false),
        ..SegmentConfig::default()
    };

    assert_eq!(
        render_aws(
            &env(AwsEnv {
                aws_profile: Some("astronauts".to_string()),
                aws_region: Some("ap-northeast-1".to_string()),
                ..AwsEnv::default()
            }),
            &config,
        ),
        None
    );
}

#[test]
fn resolves_aws_profile_using_starship_env_precedence() {
    let segment = render_aws(
        &env(AwsEnv {
            awsu_profile: Some("awsu-profile".to_string()),
            aws_vault: Some("vault-profile".to_string()),
            awsume_profile: Some("awsume-profile".to_string()),
            aws_profile: Some("plain-profile".to_string()),
            aws_sso_profile: Some("sso-profile".to_string()),
            aws_access_key_id_present: true,
            ..AwsEnv::default()
        }),
        &SegmentConfig::default(),
    )
    .expect("aws segment should render");

    assert_eq!(segment.text, "\u{e33d} awsu-profile");
}

#[test]
fn omits_aws_without_profile_or_region() {
    assert_eq!(render_aws(&PromptEnv::default(), &SegmentConfig::default()), None);
}

#[test]
fn reads_aws_profile_region_and_credential_process_from_config() {
    let config = r#"
            [default]
            region = us-east-1

            [profile astronauts]
            region = ap-northeast-1
            credential_process = /opt/bin/awscreds-retriever
            "#;
    let segment = render_aws(
        &with_files(
            AwsEnv {
                aws_profile: Some("astronauts".to_string()),
                ..AwsEnv::default()
            },
            Some(config),
            None,
        ),
        &SegmentConfig {
            force_display: Some(false),
            ..SegmentConfig::default()
        },
    )
    .expect("aws segment should render");

    assert_eq!(segment.text, "\u{e33d} astronauts (ap-northeast-1)");
}

#[test]
fn accepts_aws_sso_config() {
    let config = r#"
            [profile astronauts]
            region = us-east-2
            sso_start_url = https://example.com/start
            "#;
    let segment = render_aws(
        &with_files(
            AwsEnv {
                aws_profile: Some("astronauts".to_string()),
                ..AwsEnv::default()
            },
            Some(config),
            None,
        ),
        &SegmentConfig {
            force_display: Some(false),
            ..SegmentConfig::default()
        },
    )
    .expect("aws segment should render");

    assert_eq!(segment.text, "\u{e33d} astronauts (us-east-2)");
}

#[test]
fn reads_aws_default_region_and_default_credentials_from_files() {
    let segment = render_aws(
        &with_files(
            AwsEnv::default(),
            Some("[default]\nregion = us-east-1\n"),
            Some("[default]\naws_access_key_id = dummy\n"),
        ),
        &SegmentConfig {
            force_display: Some(false),
            ..SegmentConfig::default()
        },
    )
    .expect("aws segment should render");

    assert_eq!(segment.text, "\u{e33d} (us-east-1)");
}

#[test]
fn accepts_aws_source_profile_credentials() {
    let config = r#"
            [profile astronauts]
            region = us-west-2
            source_profile = base
            "#;
    let segment = render_aws(
        &with_files(
            AwsEnv {
                aws_profile: Some("astronauts".to_string()),
                ..AwsEnv::default()
            },
            Some(config),
            Some("[base]\naws_access_key_id = dummy\n"),
        ),
        &SegmentConfig {
            force_display: Some(false),
            ..SegmentConfig::default()
        },
    )
    .expect("aws segment should render");

    assert_eq!(segment.text, "\u{e33d} astronauts (us-west-2)");
}

#[test]
fn finds_aws_files_from_env_and_home() {
    let mut env = PromptEnv {
        home: Some("/home/me".to_string()),
        ..PromptEnv::default()
    };
    assert_eq!(
        aws_config_file_path(&env).as_deref(),
        Some("/home/me/.aws/config")
    );
    assert_eq!(
        aws_credentials_file_path(&env).as_deref(),
        Some("/home/me/.aws/credentials")
    );
    env.aws.aws_credentials_file = Some("/etc/creds".to_string());
    env.aws.aws_config_file = Some("/etc/aws".to_string());
    assert_eq!(aws_credentials_file_path(&env).as_deref(), Some("/etc/creds"));
    assert_eq!(aws_config_file_path(&env).as_deref(), Some("/etc/aws"));
    env.aws.aws_shared_credentials_file = Some("/etc/shared".to_string());
    assert_eq!(aws_credentials_file_path(&env).as_deref(), Some("/etc/shared"));
    assert_eq!(aws_config_file_path(&PromptEnv::default()), None);
}

#[test]
fn parses_ini_sections_and_assignments() {
    let ini = parse_ini("; comment\n[default]\nregion = us-east-1\r\n# note\n[other]\nkey=value\n");

    assert!(ini.has_section("default"));
    assert!(ini.has_section("other"));
    assert!(!ini.has_section("missing"));
    assert_eq!(ini.get("default", "region").as_deref(), Some("us-east-1"));
    assert_eq!(ini.get("other", "key").as_deref(), Some("value"));
    assert_eq!(ini.get("other", "region"), None);
}
