//! Prompt inputs captured by the shell adapter.
//!
//! Paths are held as the text the shell sent; nothing here touches the file system
//! or the process environment.

use vstd::prelude::*;

use crate::config::opt_view;
use crate::text::str_eq;

verus! {

/// Everything the shell sends for one prompt.
#[derive(Clone, Debug, PartialEq, Eq)]
pub struct PromptState {
    pub cwd: String,
    pub exit_status: i32,
    pub duration_ms: Option<u64>,
    pub time: Option<String>,
    pub columns: u16,
    pub keymap: Keymap,
    pub env: PromptEnv,
}

/// Environment values the shell forwards with each prompt.
#[derive(Clone, Debug, Default, PartialEq, Eq)]
pub struct PromptEnv {
    pub user: Option<String>,
    pub host: Option<String>,
    pub path: Option<String>,
    pub virtual_env: Option<String>,
    pub in_nix_shell: Option<String>,
    pub nix_shell_name: Option<String>,
    pub nix_shell_level: Option<String>,
    pub home: Option<String>,
    pub aws: AwsEnv,
    pub process: ProcessEnv,
}

/// AWS-related environment values; secrets are reduced to whether they are set.
#[derive(Clone, Debug, Default, PartialEq, Eq)]
pub struct AwsEnv {
    pub awsu_profile: Option<String>,
    pub aws_vault: Option<String>,
    pub awsume_profile: Option<String>,
    pub aws_profile: Option<String>,
    pub aws_sso_profile: Option<String>,
    pub aws_region: Option<String>,
    pub aws_default_region: Option<String>,
    pub aws_config_file: Option<String>,
    pub aws_shared_credentials_file: Option<String>,
    pub aws_credentials_file: Option<String>,
    pub aws_access_key_id_present: bool,
    pub aws_secret_access_key_present: bool,
    pub aws_session_token_present: bool,
}

/// What the renderer reads from the rendering process itself rather than from the
/// shell: fallbacks for values the shell left empty, whether the session runs over
/// SSH, and the text of the AWS config and credentials files that the AWS
/// segment consults. The caller fills it in; it never travels over the protocol.
#[derive(Clone, Debug, Default, PartialEq, Eq)]
pub struct ProcessEnv {
    pub home: Option<String>,
    pub user: Option<String>,
    pub host: Option<String>,
    pub hostname: Option<String>,
    pub ssh_connection: bool,
    pub aws_config: Option<String>,
    pub aws_credentials: Option<String>,
}

/// The zsh keymap active when the prompt is drawn.
#[derive(Clone, Copy, Debug, Default, PartialEq, Eq)]
pub enum Keymap {
    #[default]
    Main,
    ViCommand,
}

impl Keymap {
    /// `vicmd` and `vi-command` select the vi command keymap; anything else is `Main`.
    pub fn parse(input: &str) -> (r: Self)
        ensures
            r == (if input@ == "vicmd"@ || input@ == "vi-command"@ {
                Keymap::ViCommand
            } else {
                Keymap::Main
            }),
    {
        if str_eq(input, "vicmd") || str_eq(input, "vi-command") {
            Keymap::ViCommand
        } else {
            Keymap::Main
        }
    }
}

pub struct AwsEnvView {
    pub awsu_profile: Option<Seq<char>>,
    pub aws_vault: Option<Seq<char>>,
    pub awsume_profile: Option<Seq<char>>,
    pub aws_profile: Option<Seq<char>>,
    pub aws_sso_profile: Option<Seq<char>>,
    pub aws_region: Option<Seq<char>>,
    pub aws_default_region: Option<Seq<char>>,
    pub aws_config_file: Option<Seq<char>>,
    pub aws_shared_credentials_file: Option<Seq<char>>,
    pub aws_credentials_file: Option<Seq<char>>,
    pub aws_access_key_id_present: bool,
    pub aws_secret_access_key_present: bool,
    pub aws_session_token_present: bool,
}

impl View for AwsEnv {
    type V = AwsEnvView;

    open spec fn view(&self) -> AwsEnvView {
        AwsEnvView {
            awsu_profile: opt_view(self.awsu_profile),
            aws_vault: opt_view(self.aws_vault),
            awsume_profile: opt_view(self.awsume_profile),
            aws_profile: opt_view(self.aws_profile),
            aws_sso_profile: opt_view(self.aws_sso_profile),
            aws_region: opt_view(self.aws_region),
            aws_default_region: opt_view(self.aws_default_region),
            aws_config_file: opt_view(self.aws_config_file),
            aws_shared_credentials_file: opt_view(self.aws_shared_credentials_file),
            aws_credentials_file: opt_view(self.aws_credentials_file),
            aws_access_key_id_present: self.aws_access_key_id_present,
            aws_secret_access_key_present: self.aws_secret_access_key_present,
            aws_session_token_present: self.aws_session_token_present,
        }
    }
}

pub struct ProcessEnvView {
    pub home: Option<Seq<char>>,
    pub user: Option<Seq<char>>,
    pub host: Option<Seq<char>>,
    pub hostname: Option<Seq<char>>,
    pub ssh_connection: bool,
    pub aws_config: Option<Seq<char>>,
    pub aws_credentials: Option<Seq<char>>,
}

impl View for ProcessEnv {
    type V = ProcessEnvView;

    open spec fn view(&self) -> ProcessEnvView {
        ProcessEnvView {
            home: opt_view(self.home),
            user: opt_view(self.user),
            host: opt_view(self.host),
            hostname: opt_view(self.hostname),
            ssh_connection: self.ssh_connection,
            aws_config: opt_view(self.aws_config),
            aws_credentials: opt_view(self.aws_credentials),
        }
    }
}

pub open spec fn empty_process_view() -> ProcessEnvView {
    ProcessEnvView {
        home: None,
        user: None,
        host: None,
        hostname: None,
        ssh_connection: false,
        aws_config: None,
        aws_credentials: None,
    }
}

pub struct PromptEnvView {
    pub user: Option<Seq<char>>,
    pub host: Option<Seq<char>>,
    pub path: Option<Seq<char>>,
    pub virtual_env: Option<Seq<char>>,
    pub in_nix_shell: Option<Seq<char>>,
    pub nix_shell_name: Option<Seq<char>>,
    pub nix_shell_level: Option<Seq<char>>,
    pub home: Option<Seq<char>>,
    pub aws: AwsEnvView,
    pub process: ProcessEnvView,
}

impl View for PromptEnv {
    type V = PromptEnvView;

    open spec fn view(&self) -> PromptEnvView {
        PromptEnvView {
            user: opt_view(self.user),
            host: opt_view(self.host),
            path: opt_view(self.path),
            virtual_env: opt_view(self.virtual_env),
            in_nix_shell: opt_view(self.in_nix_shell),
            nix_shell_name: opt_view(self.nix_shell_name),
            nix_shell_level: opt_view(self.nix_shell_level),
            home: opt_view(self.home),
            aws: self.aws@,
            process: self.process@,
        }
    }
}

pub struct PromptStateView {
    pub cwd: Seq<char>,
    pub exit_status: i32,
    pub duration_ms: Option<u64>,
    pub time: Option<Seq<char>>,
    pub columns: u16,
    pub keymap: Keymap,
    pub env: PromptEnvView,
}

impl View for PromptState {
    type V = PromptStateView;

    open spec fn view(&self) -> PromptStateView {
        PromptStateView {
            cwd: self.cwd@,
            exit_status: self.exit_status,
            duration_ms: self.duration_ms,
            time: opt_view(self.time),
            columns: self.columns,
            keymap: self.keymap,
            env: self.env@,
        }
    }
}

/// A process environment with nothing set.
pub fn empty_process_env() -> (r: ProcessEnv)
    ensures
        r@ == empty_process_view(),
{
    ProcessEnv {
        home: None,
        user: None,
        host: None,
        hostname: None,
        ssh_connection: false,
        aws_config: None,
        aws_credentials: None,
    }
}

} // verus!
