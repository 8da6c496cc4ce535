use nova::worker::protocol::VERSION;
use nova::zsh_init::{
    hex_encode, render_init_script, render_init_script_with_session_token,
    session_token_initializer, zsh_random_session_token_expression, zsh_single_quote,
};

const TEMPLATE: &str = "typeset -g _nova_bin=@NOVA_BIN@\n\
typeset -g _nova_protocol_version=@NOVA_PROTOCOL_VERSION@\n\
typeset -g _nova_session_token=@NOVA_SESSION_TOKEN@\n\
# @NOVA_BIN@ again\n";

#[test]
fn fills_every_placeholder() {
    let script = render_init_script_with_session_token(TEMPLATE, "/tmp/nova bin", "token");

    assert!(script.contains("typeset -g _nova_bin='/tmp/nova bin'"));
    assert!(script.contains(&format!("typeset -g _nova_protocol_version={VERSION}")));
    assert!(script.contains("typeset -g _nova_session_token='token'"));
    assert!(script.contains("# '/tmp/nova bin' again"));
    assert!(!script.contains("@NOVA_"));
}

#[test]
fn escapes_single_quotes_in_binary_paths_and_tokens() {
    let script = render_init_script_with_session_token(TEMPLATE, "/tmp/no'va", "token'with quote");

    assert!(script.contains("typeset -g _nova_bin='/tmp/no'\\''va'"));
    assert!(script.contains("typeset -g _nova_session_token='token'\\''with quote'"));
}

#[test]
fn session_tokens_come_from_random_bytes_or_the_shell() {
    assert_eq!(hex_encode(&[0x00, 0x0f, 0xa5, 0xff]), "000fa5ff");
    assert_eq!(
        session_token_initializer(Some(&[0xde, 0xad, 0xbe, 0xef])),
        "'deadbeef'"
    );
    assert_eq!(
        session_token_initializer(None),
        zsh_random_session_token_expression()
    );
    assert_eq!(
        zsh_random_session_token_expression(),
        "\"${RANDOM}${RANDOM}${RANDOM}${RANDOM}${RANDOM}${RANDOM}${RANDOM}${RANDOM}-$$\""
    );

    let script = render_init_script(TEMPLATE, "/bin/nova", Some(&[1, 2]));
    assert!(script.contains("_nova_session_token='0102'"));
}

#[test]
fn later_placeholders_are_replaced_inside_earlier_values() {
    let script = render_init_script_with_session_token("@NOVA_BIN@@NOVA_SESSION_TOKEN@", "@NOVA_SESSION_TOKEN@", "t");

    assert_eq!(script, "''t'''t'");
    assert_eq!(zsh_single_quote("''"), "''\\'''\\'''");
}

#[test]
fn embeds_protocol_version_seven() {
    let script = render_init_script_with_session_token(TEMPLATE, "/tmp/nova", "token");

    assert!(script.contains("typeset -g _nova_protocol_version=7"));
    assert!(!script.contains("@NOVA_PROTOCOL_VERSION@"));
    assert!(!script.contains("@NOVA_SESSION_TOKEN@"));
}
