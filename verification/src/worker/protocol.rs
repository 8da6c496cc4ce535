//! zsh-to-worker frame protocol.
//!
//! A record is a list of fields joined by NUL and terminated by RS. The encoder
//! drops NUL and RS from every field, so what it writes always splits back into
//! the fields it was given.

use vstd::prelude::*;

use crate::config::{opt_view, strings_view};
use crate::render::{LoweredPrompt, LoweredPromptView};
use crate::state::{
    empty_process_env, empty_process_view, AwsEnv, AwsEnvView, Keymap, PromptEnv, PromptEnvView,
    PromptState, PromptStateView,
};
use crate::text::{
    chars_of, copy_str, decimal, format_i32, format_u64, free_of, join_chars, join_with,
    lemma_parse_signed_decimal, lemma_parse_unsigned_decimal, lemma_split_join,
    lemma_split_on_nonempty,
    parse_i32_chars, parse_signed, parse_unsigned, parse_unsigned_chars, push_char,
    signed_decimal, split_chars, split_on, str_eq, string_of, views,
};

verus! {

/// The protocol version the worker announces in its handshake.
pub const VERSION: &'static str = "7";

/// Separates the fields of a record.
pub const FIELD_SEPARATOR: char = '\0';

/// Ends a record.
pub const RECORD_SEPARATOR: char = '\x1e';

#[derive(Clone, Debug, PartialEq, Eq)]
pub struct RenderRequest {
    pub generation: u64,
    pub state: PromptState,
}

#[derive(Clone, Debug, PartialEq, Eq)]
pub enum ClientRecord {
    Render(RenderRequest),
}

#[derive(Clone, Debug, PartialEq, Eq)]
pub enum WorkerRecord {
    Handshake { session_token: String, initial_wait_ms: u64 },
    Prompt { generation: u64, status: RenderStatus, output: LoweredPrompt },
    Update { generation: u64, status: RenderStatus, output: LoweredPrompt },
}

/// Whether a reply holds every value that can be shown yet.
#[derive(Clone, Copy, Debug, PartialEq, Eq)]
pub enum RenderStatus {
    Final,
    Partial,
}

#[derive(Clone, Debug, PartialEq, Eq)]
pub enum ProtocolError {
    EmptyRecord,
    UnknownRecord(String),
    WrongFieldCount { record: String, expected: usize, actual: usize },
    InvalidUnsigned { field: String, value: String },
    InvalidSigned { field: String, value: String },
    InvalidColumns(String),
    InvalidStatus(String),
}

// ---------------------------------------------------------------------------
// Views
// ---------------------------------------------------------------------------

pub struct RenderRequestView {
    pub generation: u64,
    pub state: PromptStateView,
}

impl View for RenderRequest {
    type V = RenderRequestView;

    open spec fn view(&self) -> RenderRequestView {
        RenderRequestView { generation: self.generation, state: self.state@ }
    }
}

pub enum WorkerRecordView {
    Handshake { session_token: Seq<char>, initial_wait_ms: u64 },
    Prompt { generation: u64, status: RenderStatus, output: LoweredPromptView },
    Update { generation: u64, status: RenderStatus, output: LoweredPromptView },
}

impl View for WorkerRecord {
    type V = WorkerRecordView;

    open spec fn view(&self) -> WorkerRecordView {
        match self {
            WorkerRecord::Handshake { session_token, initial_wait_ms } => WorkerRecordView::Handshake {
                session_token: session_token@,
                initial_wait_ms: *initial_wait_ms,
            },
            WorkerRecord::Prompt { generation, status, output } => WorkerRecordView::Prompt {
                generation: *generation,
                status: *status,
                output: output@,
            },
            WorkerRecord::Update { generation, status, output } => WorkerRecordView::Update {
                generation: *generation,
                status: *status,
                output: output@,
            },
        }
    }
}

pub enum ProtocolErrorView {
    EmptyRecord,
    UnknownRecord(Seq<char>),
    WrongFieldCount { record: Seq<char>, expected: usize, actual: usize },
    InvalidUnsigned { field: Seq<char>, value: Seq<char> },
    InvalidSigned { field: Seq<char>, value: Seq<char> },
    InvalidColumns(Seq<char>),
    InvalidStatus(Seq<char>),
}

impl View for ProtocolError {
    type V = ProtocolErrorView;

    open spec fn view(&self) -> ProtocolErrorView {
        match self {
            ProtocolError::EmptyRecord => ProtocolErrorView::EmptyRecord,
            ProtocolError::UnknownRecord(r) => ProtocolErrorView::UnknownRecord(r@),
            ProtocolError::WrongFieldCount { record, expected, actual } =>
                ProtocolErrorView::WrongFieldCount {
                record: record@,
                expected: *expected,
                actual: *actual,
            },
            ProtocolError::InvalidUnsigned { field, value } => ProtocolErrorView::InvalidUnsigned {
                field: field@,
                value: value@,
            },
            ProtocolError::InvalidSigned { field, value } => ProtocolErrorView::InvalidSigned {
                field: field@,
                value: value@,
            },
            ProtocolError::InvalidColumns(v) => ProtocolErrorView::InvalidColumns(v@),
            ProtocolError::InvalidStatus(v) => ProtocolErrorView::InvalidStatus(v@),
        }
    }
}

pub open spec fn client_result_view(r: Result<ClientRecord, ProtocolError>) -> Result<
    RenderRequestView,
    ProtocolErrorView,
> {
    match r {
        Ok(ClientRecord::Render(req)) => Ok(req@),
        Err(e) => Err(e@),
    }
}

pub open spec fn worker_result_view(r: Result<WorkerRecord, ProtocolError>) -> Result<
    WorkerRecordView,
    ProtocolErrorView,
> {
    match r {
        Ok(w) => Ok(w@),
        Err(e) => Err(e@),
    }
}

// ---------------------------------------------------------------------------
// The wire format
// ---------------------------------------------------------------------------

/// `s` without field and record separators.
pub open spec fn clean(s: Seq<char>) -> Seq<char> {
    s.filter(|c: char| c != FIELD_SEPARATOR && c != RECORD_SEPARATOR)
}

/// Whether `s` holds neither separator.
pub open spec fn wire_safe(s: Seq<char>) -> bool {
    free_of(s, FIELD_SEPARATOR) && free_of(s, RECORD_SEPARATOR)
}

/// A record: the cleaned fields joined by NUL, then RS.
pub open spec fn encoded(fields: Seq<Seq<char>>) -> Seq<char> {
    join_with(Seq::new(fields.len(), |i: int| clean(fields[i])), seq![FIELD_SEPARATOR]).push(
        RECORD_SEPARATOR,
    )
}

pub open spec fn opt_text(o: Option<Seq<char>>) -> Seq<char> {
    match o {
        Some(s) => s,
        None => Seq::empty(),
    }
}

pub open spec fn bool_text(b: bool) -> Seq<char> {
    if b {
        "1"@
    } else {
        Seq::empty()
    }
}

pub open spec fn keymap_text(k: Keymap) -> Seq<char> {
    match k {
        Keymap::Main => "main"@,
        Keymap::ViCommand => "vicmd"@,
    }
}

pub open spec fn status_text(s: RenderStatus) -> Seq<char> {
    match s {
        RenderStatus::Final => "final"@,
        RenderStatus::Partial => "partial"@,
    }
}

/// The first fields of a render request: its kind, generation and prompt state.
pub open spec fn request_head(r: RenderRequestView) -> Seq<Seq<char>> {
    let s = r.state;
    seq![
        "R"@,
        decimal(r.generation as nat),
        s.cwd,
        signed_decimal(s.exit_status as int),
        match s.duration_ms {
            Some(d) => decimal(d as nat),
            None => Seq::empty(),
        },
        decimal(s.columns as nat),
        keymap_text(s.keymap),
        opt_text(s.env.user),
        opt_text(s.env.host),
        opt_text(s.time),
    ]
}

/// The fields of the shell environment, after the head.
pub open spec fn env_fields(e: PromptEnvView) -> Seq<Seq<char>> {
    seq![
        opt_text(e.virtual_env),
        opt_text(e.in_nix_shell),
        opt_text(e.nix_shell_name),
        opt_text(e.nix_shell_level),
        opt_text(e.home),
    ]
}

/// The fields of the AWS environment.
pub open spec fn aws_fields(a: AwsEnvView) -> Seq<Seq<char>> {
    seq![
        opt_text(a.awsu_profile),
        opt_text(a.aws_vault),
        opt_text(a.awsume_profile),
        opt_text(a.aws_profile),
        opt_text(a.aws_sso_profile),
        opt_text(a.aws_region),
        opt_text(a.aws_default_region),
        opt_text(a.aws_config_file),
        opt_text(a.aws_shared_credentials_file),
        opt_text(a.aws_credentials_file),
        bool_text(a.aws_access_key_id_present),
        bool_text(a.aws_secret_access_key_present),
        bool_text(a.aws_session_token_present),
    ]
}

/// The fields of a render request, in wire order.
pub open spec fn request_fields(r: RenderRequestView) -> Seq<Seq<char>> {
    request_head(r) + env_fields(r.state.env) + aws_fields(r.state.env.aws) + seq![
        opt_text(r.state.env.path),
    ]
}

pub open spec fn worker_fields(w: WorkerRecordView) -> Seq<Seq<char>> {
    match w {
        WorkerRecordView::Handshake { session_token, initial_wait_ms } => seq![
            "H"@,
            "7"@,
            clean(session_token),
            decimal(initial_wait_ms as nat),
        ],
        WorkerRecordView::Prompt { generation, status, output } => seq![
            "P"@,
            decimal(generation as nat),
            status_text(status),
            clean(output.prompt),
            clean(output.rprompt),
        ],
        WorkerRecordView::Update { generation, status, output } => seq![
            "U"@,
            decimal(generation as nat),
            status_text(status),
            clean(output.prompt),
            clean(output.rprompt),
        ],
    }
}

pub open spec fn non_empty(s: Seq<char>) -> Option<Seq<char>> {
    if s.len() == 0 {
        None
    } else {
        Some(s)
    }
}

pub open spec fn keymap_of(s: Seq<char>) -> Keymap {
    if s == "vicmd"@ || s == "vi-command"@ {
        Keymap::ViCommand
    } else {
        Keymap::Main
    }
}

/// The AWS environment that the fields of a render request carry.
pub open spec fn aws_from_fields(f: Seq<Seq<char>>) -> AwsEnvView {
    AwsEnvView {
        awsu_profile: non_empty(f[15]),
        aws_vault: non_empty(f[16]),
        awsume_profile: non_empty(f[17]),
        aws_profile: non_empty(f[18]),
        aws_sso_profile: non_empty(f[19]),
        aws_region: non_empty(f[20]),
        aws_default_region: non_empty(f[21]),
        aws_config_file: non_empty(f[22]),
        aws_shared_credentials_file: non_empty(f[23]),
        aws_credentials_file: non_empty(f[24]),
        aws_access_key_id_present: f[25].len() > 0,
        aws_secret_access_key_present: f[26].len() > 0,
        aws_session_token_present: f[27].len() > 0,
    }
}

/// The shell environment that the fields of a render request carry; the PATH
/// field is optional, and nothing of the renderer's own process travels.
pub open spec fn env_from_fields(f: Seq<Seq<char>>) -> PromptEnvView {
    PromptEnvView {
        user: non_empty(f[7]),
        host: non_empty(f[8]),
        path: if f.len() > 28 {
            non_empty(f[28])
        } else {
            None
        },
        virtual_env: non_empty(f[10]),
        in_nix_shell: non_empty(f[11]),
        nix_shell_name: non_empty(f[12]),
        nix_shell_level: non_empty(f[13]),
        home: non_empty(f[14]),
        aws: aws_from_fields(f),
        process: empty_process_view(),
    }
}

/// The request that well-formed fields describe.
pub open spec fn request_from_fields(
    f: Seq<Seq<char>>,
    generation: u64,
    exit_status: i32,
    duration_ms: Option<u64>,
    columns: u16,
) -> RenderRequestView {
    RenderRequestView {
        generation,
        state: PromptStateView {
            cwd: f[2],
            exit_status,
            duration_ms,
            time: non_empty(f[9]),
            columns,
            keymap: keymap_of(f[6]),
            env: env_from_fields(f),
        },
    }
}

/// What decoding a client record (without its RS) gives.
pub open spec fn decode_client(record: Seq<char>) -> Result<RenderRequestView, ProtocolErrorView> {
    let f = split_on(record, FIELD_SEPARATOR);
    if f[0] != "R"@ {
        Err(ProtocolErrorView::UnknownRecord(f[0]))
    } else if f.len() != 28 && f.len() != 29 {
        Err(ProtocolErrorView::WrongFieldCount { record: "R"@, expected: 29, actual: f.len() as usize })
    } else if parse_unsigned(f[1], u64::MAX as nat) is None {
        Err(ProtocolErrorView::InvalidUnsigned { field: "gen"@, value: f[1] })
    } else if parse_signed(f[3], i32::MIN as int, i32::MAX as int) is None {
        Err(ProtocolErrorView::InvalidSigned { field: "exit_status"@, value: f[3] })
    } else if f[4].len() > 0 && parse_unsigned(f[4], u64::MAX as nat) is None {
        Err(ProtocolErrorView::InvalidUnsigned { field: "duration_ms"@, value: f[4] })
    } else if parse_unsigned(f[5], u16::MAX as nat) is None || parse_unsigned(
        f[5],
        u16::MAX as nat,
    ) == Some(0nat) {
        Err(ProtocolErrorView::InvalidColumns(f[5]))
    } else {
        Ok(
            request_from_fields(
                f,
                parse_unsigned(f[1], u64::MAX as nat).unwrap() as u64,
                parse_signed(f[3], i32::MIN as int, i32::MAX as int).unwrap() as i32,
                if f[4].len() > 0 {
                    Some(parse_unsigned(f[4], u64::MAX as nat).unwrap() as u64)
                } else {
                    None
                },
                parse_unsigned(f[5], u16::MAX as nat).unwrap() as u16,
            ),
        )
    }
}

pub open spec fn status_of(s: Seq<char>) -> Option<RenderStatus> {
    if s == "final"@ {
        Some(RenderStatus::Final)
    } else if s == "partial"@ {
        Some(RenderStatus::Partial)
    } else {
        None
    }
}

/// What decoding a worker record (without its RS) gives.
pub open spec fn decode_worker(record: Seq<char>) -> Result<WorkerRecordView, ProtocolErrorView> {
    let f = split_on(record, FIELD_SEPARATOR);
    if f[0] == "H"@ {
        if f.len() != 4 {
            Err(ProtocolErrorView::WrongFieldCount { record: f[0], expected: 4, actual: f.len() as usize })
        } else if parse_unsigned(f[3], u64::MAX as nat) is None {
            Err(ProtocolErrorView::InvalidUnsigned { field: "initial_wait_ms"@, value: f[3] })
        } else {
            Ok(
                WorkerRecordView::Handshake {
                    session_token: f[2],
                    initial_wait_ms: parse_unsigned(f[3], u64::MAX as nat).unwrap() as u64,
                },
            )
        }
    } else if f[0] == "P"@ || f[0] == "U"@ {
        if f.len() != 5 {
            Err(ProtocolErrorView::WrongFieldCount { record: f[0], expected: 5, actual: f.len() as usize })
        } else if parse_unsigned(f[1], u64::MAX as nat) is None {
            Err(ProtocolErrorView::InvalidUnsigned { field: "gen"@, value: f[1] })
        } else if status_of(f[2]) is None {
            Err(ProtocolErrorView::InvalidStatus(f[2]))
        } else {
            let generation = parse_unsigned(f[1], u64::MAX as nat).unwrap() as u64;
            let status = status_of(f[2]).unwrap();
            let output = LoweredPromptView { prompt: f[3], rprompt: f[4] };
            if f[0] == "P"@ {
                Ok(WorkerRecordView::Prompt { generation, status, output })
            } else {
                Ok(WorkerRecordView::Update { generation, status, output })
            }
        }
    } else {
        Err(ProtocolErrorView::UnknownRecord(f[0]))
    }
}

// ---------------------------------------------------------------------------
// Frames
// ---------------------------------------------------------------------------

/// The frames, each followed by RS.
pub open spec fn framed(frames: Seq<Seq<char>>) -> Seq<char>
    decreases frames.len(),
{
    if frames.len() == 0 {
        Seq::empty()
    } else {
        framed(frames.drop_last()) + frames.last().push(RECORD_SEPARATOR)
    }
}

pub open spec fn all_free_of_rs(frames: Seq<Seq<char>>) -> bool {
    forall|i: int| 0 <= i < frames.len() ==> free_of(#[trigger] frames[i], RECORD_SEPARATOR)
}

/// Splits a byte stream into RS-terminated frames, keeping the unterminated tail.
#[derive(Default)]
pub struct FrameDecoder {
    buffer: String,
}

impl FrameDecoder {
    /// The unterminated text received so far.
    pub closed spec fn pending(&self) -> Seq<char> {
        self.buffer@
    }

    /// A decoder that has received nothing.
    pub fn new() -> (r: FrameDecoder)
        ensures
            r.pending() == Seq::<char>::empty(),
    {
        FrameDecoder { buffer: String::new() }
    }

    /// Appends `chunk` and returns every frame it completes, in order.
    pub fn push(&mut self, chunk: &str) -> (frames: Vec<String>)
        ensures
            old(self).pending() + chunk@ == framed(strings_view(frames@)) + final(self).pending(),
            all_free_of_rs(strings_view(frames@)),
            free_of(final(self).pending(), RECORD_SEPARATOR) || !free_of(old(self).pending(), RECORD_SEPARATOR),
    {
        let mut all = chars_of(self.buffer.as_str());
        let incoming = chars_of(chunk);
        crate::text::extend_chars(&mut all, incoming.as_slice());
        let ghost total = all@;
        let mut frames: Vec<String> = Vec::new();
        let mut start: usize = 0;
        let mut i: usize = 0;
        assert(total.subrange(0, 0) =~= framed(strings_view(frames@)));
        while i < all.len()
            invariant
                all@ == total,
                start <= i <= all.len(),
                total.subrange(0, start as int) == framed(strings_view(frames@)),
                all_free_of_rs(strings_view(frames@)),
                forall|k: int| start <= k < i ==> #[trigger] total[k] != RECORD_SEPARATOR,
            decreases all.len() - i,
        {
            if all[i] == RECORD_SEPARATOR {
                let piece = crate::text::slice_range(all.as_slice(), start, i);
                let frame = string_of(piece.as_slice());
                let ghost before = strings_view(frames@);
                frames.push(frame);
                proof {
                    let after = strings_view(frames@);
                    assert(after =~= before.push(frame@));
                    assert(after.drop_last() =~= before);
                    assert(total.subrange(0, i + 1) =~= total.subrange(0, start as int)
                        + total.subrange(start as int, i as int).push(RECORD_SEPARATOR));
                    assert forall|j: int| 0 <= j < after.len() implies free_of(
                        #[trigger] after[j],
                        RECORD_SEPARATOR,
                    ) by {
                        if j < before.len() {
                            assert(after[j] == before[j]);
                        } else {
                            assert(after[j] == frame@);
                            assert forall|k: int| 0 <= k < frame@.len() implies #[trigger] frame@[k]
                                != RECORD_SEPARATOR by {
                                assert(frame@[k] == total[start + k]);
                            }
                        }
                    }
                }
                start = i + 1;
            }
            i += 1;
        }
        let rest = crate::text::slice_range(all.as_slice(), start, all.len());
        self.buffer = string_of(rest.as_slice());
        proof {
            assert(total =~= total.subrange(0, start as int) + total.subrange(
                start as int,
                total.len() as int,
            ));
            assert forall|k: int| 0 <= k < self.buffer@.len() implies #[trigger] self.buffer@[k]
                != RECORD_SEPARATOR by {
                assert(self.buffer@[k] == total[start + k]);
            }
        }
        frames
    }
}

// ---------------------------------------------------------------------------
// Encoding
// ---------------------------------------------------------------------------

/// `input` without field and record separators.
pub fn clean_field(input: &str) -> (r: Vec<char>)
    ensures
        r@ == clean(input@),
{
    let chars = chars_of(input);
    let mut out: Vec<char> = Vec::new();
    let mut i: usize = 0;
    while i < chars.len()
        invariant
            i <= chars.len(),
            chars@ == input@,
            out@ == clean(input@.take(i as int)),
        decreases chars.len() - i,
    {
        let c = chars[i];
        proof {
            assert(input@.take(i + 1) =~= input@.take(i as int).push(c));
            reveal_with_fuel(Seq::filter, 2);
            assert(input@.take(i + 1).drop_last() =~= input@.take(i as int));
        }
        if c != FIELD_SEPARATOR && c != RECORD_SEPARATOR {
            out.push(c);
        }
        i += 1;
    }
    assert(input@.take(i as int) =~= input@);
    out
}

/// The record the fields make: cleaned, joined by NUL and ended by RS.
pub fn encode_fields(fields: &Vec<String>) -> (r: String)
    ensures
        r@ == encoded(strings_view(fields@)),
{
    let mut cleaned: Vec<Vec<char>> = Vec::new();
    let mut i: usize = 0;
    while i < fields.len()
        invariant
            i <= fields.len(),
            views(cleaned@) == Seq::new(i as nat, |k: int| clean(fields@[k]@)),
        decreases fields.len() - i,
    {
        let c = clean_field(fields[i].as_str());
        let ghost before = views(cleaned@);
        cleaned.push(c);
        assert(views(cleaned@) =~= before.push(c@));
        i += 1;
        assert(views(cleaned@) =~= Seq::new(i as nat, |k: int| clean(fields@[k]@)));
    }
    let mut joined = join_chars(&cleaned, &[FIELD_SEPARATOR]);
    joined.push(RECORD_SEPARATOR);
    let r = string_of(joined.as_slice());
    proof {
        let sv = strings_view(fields@);
        assert(Seq::new(sv.len(), |k: int| clean(sv[k])) =~= views(cleaned@));
        assert(seq![FIELD_SEPARATOR] =~= [FIELD_SEPARATOR]@);
    }
    r
}

fn text_of_u64(n: u64) -> (r: String)
    ensures
        r@ == decimal(n as nat),
{
    let v = format_u64(n);
    string_of(v.as_slice())
}

fn push_field(fields: &mut Vec<String>, s: String)
    ensures
        strings_view(final(fields)@) == strings_view(old(fields)@).push(s@),
{
    let ghost value = s@;
    fields.push(s);
    assert(strings_view(fields@) =~= strings_view(old(fields)@).push(value));
}

fn opt_string(o: &Option<String>) -> (r: String)
    ensures
        r@ == opt_text(opt_view(*o)),
{
    match o {
        Some(s) => copy_str(s.as_str()),
        None => String::new(),
    }
}

/// The field a flag becomes: `1` when set, empty otherwise.
pub fn bool_field(value: bool) -> (r: String)
    ensures
        r@ == bool_text(value),
{
    if value {
        "1".to_string()
    } else {
        String::new()
    }
}

/// The name a keymap has on the wire.
pub fn keymap_name(keymap: Keymap) -> (r: &'static str)
    ensures
        r@ == keymap_text(keymap),
{
    match keymap {
        Keymap::Main => "main",
        Keymap::ViCommand => "vicmd",
    }
}

/// The name a render status has on the wire.
pub fn status_name(status: RenderStatus) -> (r: &'static str)
    ensures
        r@ == status_text(status),
{
    match status {
        RenderStatus::Final => "final",
        RenderStatus::Partial => "partial",
    }
}

fn head_strings(request: &RenderRequest) -> (v: Vec<String>)
    ensures
        strings_view(v@) == request_head(request@),
{
    let s = &request.state;
    let exit = format_i32(s.exit_status);
    let duration = match s.duration_ms {
        Some(d) => text_of_u64(d),
        None => String::new(),
    };
    let v = vec![
        "R".to_string(),
        text_of_u64(request.generation),
        copy_str(s.cwd.as_str()),
        string_of(exit.as_slice()),
        duration,
        text_of_u64(s.columns as u64),
        keymap_name(s.keymap).to_string(),
        opt_string(&s.env.user),
        opt_string(&s.env.host),
        opt_string(&s.time),
    ];
    proof {
        reveal_strlit("R");
        assert(strings_view(v@) =~= request_head(request@));
    }
    v
}

fn env_strings(e: &PromptEnv) -> (v: Vec<String>)
    ensures
        strings_view(v@) == env_fields(e@),
{
    let v = vec![
        opt_string(&e.virtual_env),
        opt_string(&e.in_nix_shell),
        opt_string(&e.nix_shell_name),
        opt_string(&e.nix_shell_level),
        opt_string(&e.home),
    ];
    assert(strings_view(v@) =~= env_fields(e@));
    v
}

fn aws_strings(a: &AwsEnv) -> (v: Vec<String>)
    ensures
        strings_view(v@) == aws_fields(a@),
{
    let v = vec![
        opt_string(&a.awsu_profile),
        opt_string(&a.aws_vault),
        opt_string(&a.awsume_profile),
        opt_string(&a.aws_profile),
        opt_string(&a.aws_sso_profile),
        opt_string(&a.aws_region),
        opt_string(&a.aws_default_region),
        opt_string(&a.aws_config_file),
        opt_string(&a.aws_shared_credentials_file),
        opt_string(&a.aws_credentials_file),
        bool_field(a.aws_access_key_id_present),
        bool_field(a.aws_secret_access_key_present),
        bool_field(a.aws_session_token_present),
    ];
    assert(strings_view(v@) =~= aws_fields(a@));
    v
}

fn append_strings(v: &mut Vec<String>, w: Vec<String>)
    ensures
        strings_view(final(v)@) == strings_view(old(v)@) + strings_view(w@),
{
    let ghost wv = strings_view(w@);
    let mut w = w;
    v.append(&mut w);
    assert(strings_view(v@) =~= strings_view(old(v)@) + wv);
}

/// The frame a client record becomes.
pub fn encode_client_record(record: &ClientRecord) -> (r: String)
    ensures
        r@ == match record {
            ClientRecord::Render(request) => encoded(request_fields(request@)),
        },
{
    match record {
        ClientRecord::Render(request) => {
            let mut f = head_strings(request);
            append_strings(&mut f, env_strings(&request.state.env));
            append_strings(&mut f, aws_strings(&request.state.env.aws));
            push_field(&mut f, opt_string(&request.state.env.path));
            proof {
                let e = request@.state.env;
                assert(strings_view(f@) =~= request_fields(request@));
            }
            encode_fields(&f)
        },
    }
}

fn encode_render_record(
    record_type: &str,
    generation: u64,
    status: RenderStatus,
    output: &LoweredPrompt,
) -> (r: String)
    ensures
        r@ == encoded(
            seq![
                record_type@,
                decimal(generation as nat),
                status_text(status),
                clean(output.prompt@),
                clean(output.rprompt@),
            ],
        ),
{
    let mut f: Vec<String> = Vec::new();
    assert(strings_view(f@) =~= Seq::empty());
    push_field(&mut f, copy_str(record_type));
    push_field(&mut f, text_of_u64(generation));
    push_field(&mut f, status_name(status).to_string());
    let p = clean_field(output.prompt.as_str());
    push_field(&mut f, string_of(p.as_slice()));
    let q = clean_field(output.rprompt.as_str());
    push_field(&mut f, string_of(q.as_slice()));
    proof {
        assert(strings_view(f@) =~= seq![
            record_type@,
            decimal(generation as nat),
            status_text(status),
            clean(output.prompt@),
            clean(output.rprompt@),
        ]);
    }
    encode_fields(&f)
}

/// The frame a worker record becomes.
pub fn encode_worker_record(record: &WorkerRecord) -> (r: String)
    ensures
        r@ == encoded(worker_fields(record@)),
{
    match record {
        WorkerRecord::Handshake { session_token, initial_wait_ms } => {
            let mut f: Vec<String> = Vec::new();
            assert(strings_view(f@) =~= Seq::empty());
            push_field(&mut f, "H".to_string());
            push_field(&mut f, VERSION.to_string());
            let t = clean_field(session_token.as_str());
            push_field(&mut f, string_of(t.as_slice()));
            push_field(&mut f, text_of_u64(*initial_wait_ms));
            proof {
                reveal_strlit("7");
                assert(strings_view(f@) =~= worker_fields(record@));
            }
            encode_fields(&f)
        },
        WorkerRecord::Prompt { generation, status, output } => {
            let r = encode_render_record("P", *generation, *status, output);
            proof {
                assert(worker_fields(record@) =~= seq![
                    "P"@,
                    decimal(*generation as nat),
                    status_text(*status),
                    clean(output.prompt@),
                    clean(output.rprompt@),
                ]);
            }
            r
        },
        WorkerRecord::Update { generation, status, output } => {
            let r = encode_render_record("U", *generation, *status, output);
            proof {
                assert(worker_fields(record@) =~= seq![
                    "U"@,
                    decimal(*generation as nat),
                    status_text(*status),
                    clean(output.prompt@),
                    clean(output.rprompt@),
                ]);
            }
            r
        },
    }
}

// ---------------------------------------------------------------------------
// Decoding
// ---------------------------------------------------------------------------

/// The NUL-separated fields of a record.
pub fn split_fields(record: &str) -> (r: Vec<String>)
    ensures
        strings_view(r@) == split_on(record@, FIELD_SEPARATOR),
        r.len() >= 1,
{
    let chars = chars_of(record);
    let pieces = split_chars(chars.as_slice(), FIELD_SEPARATOR);
    let mut r: Vec<String> = Vec::new();
    let mut i: usize = 0;
    while i < pieces.len()
        invariant
            i <= pieces.len(),
            strings_view(r@) == views(pieces@).take(i as int),
        decreases pieces.len() - i,
    {
        let ghost before = strings_view(r@);
        r.push(string_of(pieces[i].as_slice()));
        proof {
            assert(strings_view(r@) =~= before.push(pieces@[i as int]@));
            assert(views(pieces@).take(i + 1) =~= views(pieces@).take(i as int).push(
                pieces@[i as int]@,
            ));
        }
        i += 1;
    }
    proof {
        assert(views(pieces@).take(i as int) =~= views(pieces@));
        lemma_split_on_nonempty(record@, FIELD_SEPARATOR);
    }
    r
}

/// `Some` of the value unless it is empty.
pub fn non_empty_string(value: &str) -> (r: Option<String>)
    ensures
        opt_view(r) == non_empty(value@),
{
    if value.unicode_len() == 0 {
        None
    } else {
        Some(copy_str(value))
    }
}

/// A flag field is set when it holds anything.
pub fn parse_bool_field(value: &str) -> (r: bool)
    ensures
        r == (value@.len() > 0),
{
    value.unicode_len() != 0
}

/// Reads an unsigned 64-bit field.
pub fn parse_u64(field: &str, value: &str) -> (r: Result<u64, ProtocolError>)
    ensures
        match r {
            Ok(v) => parse_unsigned(value@, u64::MAX as nat) == Some(v as nat),
            Err(e) => parse_unsigned(value@, u64::MAX as nat) is None && e@
                == ProtocolErrorView::InvalidUnsigned { field: field@, value: value@ },
        },
{
    let chars = chars_of(value);
    match parse_unsigned_chars(chars.as_slice(), u64::MAX) {
        Some(v) => Ok(v),
        None => Err(
            ProtocolError::InvalidUnsigned { field: copy_str(field), value: copy_str(value) },
        ),
    }
}

/// Reads a signed 32-bit field.
pub fn parse_i32(field: &str, value: &str) -> (r: Result<i32, ProtocolError>)
    ensures
        match r {
            Ok(v) => parse_signed(value@, i32::MIN as int, i32::MAX as int) == Some(v as int),
            Err(e) => parse_signed(value@, i32::MIN as int, i32::MAX as int) is None && e@
                == ProtocolErrorView::InvalidSigned { field: field@, value: value@ },
        },
{
    let chars = chars_of(value);
    match parse_i32_chars(chars.as_slice()) {
        Some(v) => Ok(v),
        None => Err(ProtocolError::InvalidSigned { field: copy_str(field), value: copy_str(value) }),
    }
}

/// Reads the terminal width, which must be a positive 16-bit number.
pub fn parse_columns(value: &str) -> (r: Result<u16, ProtocolError>)
    ensures
        match r {
            Ok(v) => parse_unsigned(value@, u16::MAX as nat) == Some(v as nat) && v > 0,
            Err(e) => (parse_unsigned(value@, u16::MAX as nat) is None || parse_unsigned(
                value@,
                u16::MAX as nat,
            ) == Some(0nat)) && e@ == ProtocolErrorView::InvalidColumns(value@),
        },
{
    let chars = chars_of(value);
    match parse_unsigned_chars(chars.as_slice(), 65535) {
        Some(v) => {
            if v == 0 {
                Err(ProtocolError::InvalidColumns(copy_str(value)))
            } else {
                Ok(v as u16)
            }
        },
        None => Err(ProtocolError::InvalidColumns(copy_str(value))),
    }
}

/// Reads a render status name.
pub fn parse_status(value: &str) -> (r: Result<RenderStatus, ProtocolError>)
    ensures
        match r {
            Ok(s) => status_of(value@) == Some(s),
            Err(e) => status_of(value@) is None && e@ == ProtocolErrorView::InvalidStatus(value@),
        },
{
    if str_eq(value, "final") {
        Ok(RenderStatus::Final)
    } else if str_eq(value, "partial") {
        Ok(RenderStatus::Partial)
    } else {
        Err(ProtocolError::InvalidStatus(copy_str(value)))
    }
}

/// Checks that a record has exactly the expected number of fields.
pub fn expect_field_count(record: &str, actual: usize, expected: usize) -> (r: Result<(), ProtocolError>)
    ensures
        match r {
            Ok(()) => actual == expected,
            Err(e) => actual != expected && e@ == ProtocolErrorView::WrongFieldCount {
                record: record@,
                expected,
                actual,
            },
        },
{
    if actual == expected {
        Ok(())
    } else {
        Err(ProtocolError::WrongFieldCount { record: copy_str(record), expected, actual })
    }
}

/// A render request has 29 fields, or 28 when it comes without the PATH field.
pub fn expect_render_field_count(record: &str, actual: usize) -> (r: Result<(), ProtocolError>)
    ensures
        match r {
            Ok(()) => actual == 28 || actual == 29,
            Err(e) => actual != 28 && actual != 29 && e@ == ProtocolErrorView::WrongFieldCount {
                record: record@,
                expected: 29,
                actual,
            },
        },
{
    if actual == 28 || actual == 29 {
        Ok(())
    } else {
        Err(ProtocolError::WrongFieldCount { record: copy_str(record), expected: 29, actual })
    }
}

fn aws_env_of(f: &Vec<String>) -> (a: AwsEnv)
    requires
        f.len() >= 28,
    ensures
        a@ == aws_from_fields(strings_view(f@)),
{
    AwsEnv {
        awsu_profile: non_empty_string(f[15].as_str()),
        aws_vault: non_empty_string(f[16].as_str()),
        awsume_profile: non_empty_string(f[17].as_str()),
        aws_profile: non_empty_string(f[18].as_str()),
        aws_sso_profile: non_empty_string(f[19].as_str()),
        aws_region: non_empty_string(f[20].as_str()),
        aws_default_region: non_empty_string(f[21].as_str()),
        aws_config_file: non_empty_string(f[22].as_str()),
        aws_shared_credentials_file: non_empty_string(f[23].as_str()),
        aws_credentials_file: non_empty_string(f[24].as_str()),
        aws_access_key_id_present: parse_bool_field(f[25].as_str()),
        aws_secret_access_key_present: parse_bool_field(f[26].as_str()),
        aws_session_token_present: parse_bool_field(f[27].as_str()),
    }
}

fn prompt_env_of(f: &Vec<String>) -> (e: PromptEnv)
    requires
        f.len() >= 28,
    ensures
        e@ == env_from_fields(strings_view(f@)),
{
    let path = if f.len() > 28 {
        non_empty_string(f[28].as_str())
    } else {
        None
    };
    PromptEnv {
        user: non_empty_string(f[7].as_str()),
        host: non_empty_string(f[8].as_str()),
        path,
        virtual_env: non_empty_string(f[10].as_str()),
        in_nix_shell: non_empty_string(f[11].as_str()),
        nix_shell_name: non_empty_string(f[12].as_str()),
        nix_shell_level: non_empty_string(f[13].as_str()),
        home: non_empty_string(f[14].as_str()),
        aws: aws_env_of(f),
        process: empty_process_env(),
    }
}

/// Reads a client record (without its RS).
pub fn decode_client_record(record: &str) -> (r: Result<ClientRecord, ProtocolError>)
    ensures
        client_result_view(r) == decode_client(record@),
{
    let fields = split_fields(record);
    let ghost f = strings_view(fields@);
    assert(f[0] == fields[0]@);
    if !str_eq(fields[0].as_str(), "R") {
        return Err(ProtocolError::UnknownRecord(copy_str(fields[0].as_str())));
    }
    proof {
        reveal_strlit("R");
    }
    match expect_render_field_count("R", fields.len()) {
        Err(e) => return Err(e),
        Ok(()) => {},
    }
    assert(f[1] == fields[1]@ && f[3] == fields[3]@ && f[4] == fields[4]@ && f[5] == fields[5]@);
    let generation = match parse_u64("gen", fields[1].as_str()) {
        Err(e) => return Err(e),
        Ok(v) => v,
    };
    let exit_status = match parse_i32("exit_status", fields[3].as_str()) {
        Err(e) => return Err(e),
        Ok(v) => v,
    };
    let duration_ms = if fields[4].unicode_len() == 0 {
        None
    } else {
        match parse_u64("duration_ms", fields[4].as_str()) {
            Err(e) => return Err(e),
            Ok(v) => Some(v),
        }
    };
    let columns = match parse_columns(fields[5].as_str()) {
        Err(e) => return Err(e),
        Ok(v) => v,
    };
    let keymap = Keymap::parse(fields[6].as_str());
    let time = non_empty_string(fields[9].as_str());
    let env = prompt_env_of(&fields);
    let state = PromptState {
        cwd: copy_str(fields[2].as_str()),
        exit_status,
        duration_ms,
        time,
        columns,
        keymap,
        env,
    };
    let r = Ok(ClientRecord::Render(RenderRequest { generation, state }));
    proof {
        assert(f[2] == fields[2]@ && f[6] == fields[6]@ && f[9] == fields[9]@);
    }
    r
}

/// Reads a worker record (without its RS).
pub fn decode_worker_record(record: &str) -> (r: Result<WorkerRecord, ProtocolError>)
    ensures
        worker_result_view(r) == decode_worker(record@),
{
    let fields = split_fields(record);
    let ghost f = strings_view(fields@);
    assert(f[0] == fields[0]@);
    proof {
        reveal_strlit("H");
        reveal_strlit("P");
        reveal_strlit("U");
    }
    if str_eq(fields[0].as_str(), "H") {
        match expect_field_count(fields[0].as_str(), fields.len(), 4) {
            Err(e) => return Err(e),
            Ok(()) => {},
        }
        assert(f[2] == fields[2]@ && f[3] == fields[3]@);
        let initial_wait_ms = match parse_u64("initial_wait_ms", fields[3].as_str()) {
            Err(e) => return Err(e),
            Ok(v) => v,
        };
        return Ok(
            WorkerRecord::Handshake {
                session_token: copy_str(fields[2].as_str()),
                initial_wait_ms,
            },
        );
    }
    let is_prompt = str_eq(fields[0].as_str(), "P");
    if !is_prompt && !str_eq(fields[0].as_str(), "U") {
        return Err(ProtocolError::UnknownRecord(copy_str(fields[0].as_str())));
    }
    match expect_field_count(fields[0].as_str(), fields.len(), 5) {
        Err(e) => return Err(e),
        Ok(()) => {},
    }
    assert(f[1] == fields[1]@ && f[2] == fields[2]@ && f[3] == fields[3]@ && f[4] == fields[4]@);
    let generation = match parse_u64("gen", fields[1].as_str()) {
        Err(e) => return Err(e),
        Ok(v) => v,
    };
    let status = match parse_status(fields[2].as_str()) {
        Err(e) => return Err(e),
        Ok(s) => s,
    };
    let output = LoweredPrompt {
        prompt: copy_str(fields[3].as_str()),
        rprompt: copy_str(fields[4].as_str()),
    };
    if is_prompt {
        Ok(WorkerRecord::Prompt { generation, status, output })
    } else {
        Ok(WorkerRecord::Update { generation, status, output })
    }
}

// ---------------------------------------------------------------------------
// Laws
// ---------------------------------------------------------------------------

/// An optional text that survives the wire: absent, or present, non-empty and
/// free of separators.
pub open spec fn opt_wire_safe(o: Option<Seq<char>>) -> bool {
    match o {
        Some(s) => s.len() > 0 && wire_safe(s),
        None => true,
    }
}

/// A render request that the wire format carries without loss: no text holds a
/// separator, no optional text is present but empty, the width is positive, and
/// nothing of the renderer's own process is set.
pub open spec fn wire_representable(r: RenderRequestView) -> bool {
    let s = r.state;
    let e = s.env;
    let a = e.aws;
    &&& wire_safe(s.cwd)
    &&& s.columns > 0
    &&& opt_wire_safe(s.time)
    &&& opt_wire_safe(e.user)
    &&& opt_wire_safe(e.host)
    &&& opt_wire_safe(e.path)
    &&& opt_wire_safe(e.virtual_env)
    &&& opt_wire_safe(e.in_nix_shell)
    &&& opt_wire_safe(e.nix_shell_name)
    &&& opt_wire_safe(e.nix_shell_level)
    &&& opt_wire_safe(e.home)
    &&& opt_wire_safe(a.awsu_profile)
    &&& opt_wire_safe(a.aws_vault)
    &&& opt_wire_safe(a.awsume_profile)
    &&& opt_wire_safe(a.aws_profile)
    &&& opt_wire_safe(a.aws_sso_profile)
    &&& opt_wire_safe(a.aws_region)
    &&& opt_wire_safe(a.aws_default_region)
    &&& opt_wire_safe(a.aws_config_file)
    &&& opt_wire_safe(a.aws_shared_credentials_file)
    &&& opt_wire_safe(a.aws_credentials_file)
    &&& e.process == empty_process_view()
}

/// Cleaning leaves a text without separators as it is.
pub proof fn lemma_clean_wire_safe(s: Seq<char>)
    requires
        wire_safe(s),
    ensures
        clean(s) == s,
    decreases s.len(),
{
    reveal_with_fuel(Seq::filter, 1);
    if s.len() > 0 {
        let d = s.drop_last();
        assert forall|k: int| 0 <= k < d.len() implies #[trigger] d[k] != FIELD_SEPARATOR
            && d[k] != RECORD_SEPARATOR by {
            assert(d[k] == s[k]);
        }
        lemma_clean_wire_safe(d);
        assert(s.last() == s[s.len() - 1]);
        assert(d.push(s.last()) =~= s);
    }
}

/// A cleaned text holds no separator.
pub proof fn lemma_clean_is_wire_safe(s: Seq<char>)
    ensures
        wire_safe(clean(s)),
{
    let c = clean(s);
    assert forall|k: int| 0 <= k < c.len() implies #[trigger] c[k] != FIELD_SEPARATOR by {
        s.lemma_filter_pred(|c: char| c != FIELD_SEPARATOR && c != RECORD_SEPARATOR, k);
    }
    assert forall|k: int| 0 <= k < c.len() implies #[trigger] c[k] != RECORD_SEPARATOR by {
        s.lemma_filter_pred(|c: char| c != FIELD_SEPARATOR && c != RECORD_SEPARATOR, k);
    }
}

proof fn lemma_digits_wire_safe(s: Seq<char>)
    requires
        crate::text::all_digits(s),
    ensures
        wire_safe(s),
{
    assert forall|k: int| 0 <= k < s.len() implies #[trigger] s[k] != FIELD_SEPARATOR by {
        assert(crate::text::is_digit(s[k]));
    }
    assert forall|k: int| 0 <= k < s.len() implies #[trigger] s[k] != RECORD_SEPARATOR by {
        assert(crate::text::is_digit(s[k]));
    }
}

/// Splitting an encoded record (without its RS) gives back its fields when none
/// of them holds a separator.
pub proof fn lemma_encoded_fields(fields: Seq<Seq<char>>)
    requires
        fields.len() >= 1,
        forall|i: int| 0 <= i < fields.len() ==> wire_safe(#[trigger] fields[i]),
    ensures
        encoded(fields).len() >= 1,
        encoded(fields).last() == RECORD_SEPARATOR,
        split_on(encoded(fields).drop_last(), FIELD_SEPARATOR) == fields,
{
    let cleaned = Seq::new(fields.len(), |i: int| clean(fields[i]));
    assert forall|i: int| 0 <= i < fields.len() implies #[trigger] cleaned[i] == fields[i] by {
        lemma_clean_wire_safe(fields[i]);
    }
    assert(cleaned =~= fields);
    let j = join_with(cleaned, seq![FIELD_SEPARATOR]);
    assert(encoded(fields).drop_last() =~= j);
    assert forall|i: int| 0 <= i < fields.len() implies free_of(
        #[trigger] fields[i],
        FIELD_SEPARATOR,
    ) by {
        assert(wire_safe(fields[i]));
    }
    lemma_split_join(fields, FIELD_SEPARATOR);
}

proof fn lemma_non_empty_opt_text(o: Option<Seq<char>>)
    requires
        opt_wire_safe(o),
    ensures
        non_empty(opt_text(o)) == o,
        wire_safe(opt_text(o)),
{
    if o is None {
        assert(wire_safe(Seq::<char>::empty()));
    }
}

proof fn lemma_bool_text(b: bool)
    ensures
        (bool_text(b).len() > 0) == b,
        wire_safe(bool_text(b)),
{
    reveal_strlit("1");
    assert(wire_safe(Seq::<char>::empty()));
}

proof fn lemma_keymap_text(k: Keymap)
    ensures
        keymap_of(keymap_text(k)) == k,
        wire_safe(keymap_text(k)),
{
    reveal_strlit("main");
    reveal_strlit("vicmd");
    reveal_strlit("vi-command");
    if k == Keymap::Main {
        assert("main"@ != "vicmd"@ && "main"@ != "vi-command"@) by {
            assert("main"@.len() != "vicmd"@.len());
            assert("main"@.len() != "vi-command"@.len());
        }
    }
}

proof fn lemma_status_text(s: RenderStatus)
    ensures
        status_of(status_text(s)) == Some(s),
        wire_safe(status_text(s)),
{
    reveal_strlit("final");
    reveal_strlit("partial");
    assert("partial"@.len() != "final"@.len());
}

/// The fields of a representable request hold no separator.
proof fn lemma_request_fields_wire_safe(r: RenderRequestView)
    requires
        wire_representable(r),
    ensures
        forall|i: int| 0 <= i < request_fields(r).len() ==> wire_safe(#[trigger] request_fields(r)[i]),
        request_fields(r).len() == 29,
{
    let s = r.state;
    let e = s.env;
    let a = e.aws;
    let f = request_fields(r);
    reveal_strlit("R");
    crate::text::lemma_decimal_digits(r.generation as nat);
    lemma_digits_wire_safe(decimal(r.generation as nat));
    crate::text::lemma_decimal_digits(s.columns as nat);
    lemma_digits_wire_safe(decimal(s.columns as nat));
    if s.exit_status < 0 {
        crate::text::lemma_decimal_digits((-s.exit_status) as nat);
        lemma_digits_wire_safe(decimal((-s.exit_status) as nat));
        let t = signed_decimal(s.exit_status as int);
        assert forall|k: int| 0 <= k < t.len() implies #[trigger] t[k] != FIELD_SEPARATOR
            && t[k] != RECORD_SEPARATOR by {
            if k > 0 {
                assert(t[k] == decimal((-s.exit_status) as nat)[k - 1]);
            }
        }
    } else {
        crate::text::lemma_decimal_digits(s.exit_status as nat);
        lemma_digits_wire_safe(decimal(s.exit_status as nat));
    }
    match s.duration_ms {
        Some(d) => {
            crate::text::lemma_decimal_digits(d as nat);
            lemma_digits_wire_safe(decimal(d as nat));
        },
        None => {
            assert(wire_safe(Seq::<char>::empty()));
        },
    }
    lemma_keymap_text(s.keymap);
    lemma_non_empty_opt_text(s.time);
    lemma_non_empty_opt_text(e.user);
    lemma_non_empty_opt_text(e.host);
    lemma_non_empty_opt_text(e.path);
    lemma_non_empty_opt_text(e.virtual_env);
    lemma_non_empty_opt_text(e.in_nix_shell);
    lemma_non_empty_opt_text(e.nix_shell_name);
    lemma_non_empty_opt_text(e.nix_shell_level);
    lemma_non_empty_opt_text(e.home);
    lemma_non_empty_opt_text(a.awsu_profile);
    lemma_non_empty_opt_text(a.aws_vault);
    lemma_non_empty_opt_text(a.awsume_profile);
    lemma_non_empty_opt_text(a.aws_profile);
    lemma_non_empty_opt_text(a.aws_sso_profile);
    lemma_non_empty_opt_text(a.aws_region);
    lemma_non_empty_opt_text(a.aws_default_region);
    lemma_non_empty_opt_text(a.aws_config_file);
    lemma_non_empty_opt_text(a.aws_shared_credentials_file);
    lemma_non_empty_opt_text(a.aws_credentials_file);
    lemma_bool_text(a.aws_access_key_id_present);
    lemma_bool_text(a.aws_secret_access_key_present);
    lemma_bool_text(a.aws_session_token_present);
    assert(wire_safe("R"@));
    assert forall|i: int| 0 <= i < f.len() implies wire_safe(#[trigger] f[i]) by {
        assert(f[i] == request_fields(r)[i]);
    }
}

/// Decoding the fields of a representable request gives the request back.
#[verifier::spinoff_prover]
#[verifier::rlimit(60)]
proof fn lemma_decode_request_fields(r: RenderRequestView, f: Seq<Seq<char>>)
    requires
        wire_representable(r),
        f == request_fields(r) || f == request_fields(r).drop_last(),
    ensures
        f.len() == 28 || f.len() == 29,
        f[0] == "R"@,
        parse_unsigned(f[1], u64::MAX as nat) == Some(r.generation as nat),
        parse_signed(f[3], i32::MIN as int, i32::MAX as int) == Some(r.state.exit_status as int),
        f[4].len() > 0 <==> r.state.duration_ms is Some,
        r.state.duration_ms matches Some(d) ==> parse_unsigned(f[4], u64::MAX as nat) == Some(d as nat),
        parse_unsigned(f[5], u16::MAX as nat) == Some(r.state.columns as nat),
        f[2] == r.state.cwd,
        keymap_of(f[6]) == r.state.keymap,
        non_empty(f[9]) == r.state.time,
        aws_from_fields(f) == r.state.env.aws,
        f.len() == 29 ==> env_from_fields(f) == r.state.env,
{
    let s = r.state;
    let e = s.env;
    let a = e.aws;
    reveal_strlit("R");
    lemma_request_fields_wire_safe(r);
    lemma_parse_unsigned_decimal(r.generation as nat, u64::MAX as nat);
    lemma_parse_signed_decimal(s.exit_status as int, i32::MIN as int, i32::MAX as int);
    lemma_parse_unsigned_decimal(s.columns as nat, u16::MAX as nat);
    if let Some(d) = s.duration_ms {
        lemma_parse_unsigned_decimal(d as nat, u64::MAX as nat);
        crate::text::lemma_decimal_digits(d as nat);
    }
    lemma_keymap_text(s.keymap);
    lemma_non_empty_opt_text(s.time);
    lemma_non_empty_opt_text(e.user);
    lemma_non_empty_opt_text(e.host);
    lemma_non_empty_opt_text(e.path);
    lemma_non_empty_opt_text(e.virtual_env);
    lemma_non_empty_opt_text(e.in_nix_shell);
    lemma_non_empty_opt_text(e.nix_shell_name);
    lemma_non_empty_opt_text(e.nix_shell_level);
    lemma_non_empty_opt_text(e.home);
    lemma_non_empty_opt_text(a.awsu_profile);
    lemma_non_empty_opt_text(a.aws_vault);
    lemma_non_empty_opt_text(a.awsume_profile);
    lemma_non_empty_opt_text(a.aws_profile);
    lemma_non_empty_opt_text(a.aws_sso_profile);
    lemma_non_empty_opt_text(a.aws_region);
    lemma_non_empty_opt_text(a.aws_default_region);
    lemma_non_empty_opt_text(a.aws_config_file);
    lemma_non_empty_opt_text(a.aws_shared_credentials_file);
    lemma_non_empty_opt_text(a.aws_credentials_file);
    lemma_bool_text(a.aws_access_key_id_present);
    lemma_bool_text(a.aws_secret_access_key_present);
    lemma_bool_text(a.aws_session_token_present);
    let full = request_fields(r);
    assert(f[0] == full[0] && f[1] == full[1] && f[2] == full[2] && f[3] == full[3]);
    assert(f[4] == full[4] && f[5] == full[5] && f[6] == full[6] && f[9] == full[9]);
    assert(aws_from_fields(f) == aws_from_fields(full)) by {
        assert(f[15] == full[15] && f[16] == full[16] && f[17] == full[17]);
        assert(f[18] == full[18] && f[19] == full[19] && f[20] == full[20]);
        assert(f[21] == full[21] && f[22] == full[22] && f[23] == full[23]);
        assert(f[24] == full[24] && f[25] == full[25] && f[26] == full[26]);
        assert(f[27] == full[27]);
    }
    assert(aws_from_fields(full) == a);
    if f.len() == 29 {
        assert(env_from_fields(f) == e);
    }
}

/// A representable render request read back from its own frame is the same
/// request (the frame's RS removed, as the frame decoder removes it).
pub proof fn law_client_round_trip(request: RenderRequestView)
    requires
        wire_representable(request),
    ensures
        encoded(request_fields(request)).last() == RECORD_SEPARATOR,
        decode_client(encoded(request_fields(request)).drop_last()) == Ok::<
            RenderRequestView,
            ProtocolErrorView,
        >(request),
{
    let fields = request_fields(request);
    lemma_request_fields_wire_safe(request);
    lemma_encoded_fields(fields);
    lemma_decode_request_fields(request, fields);
}

/// A frame written before the PATH field existed (its last field dropped) is
/// read as the same request with no PATH.
pub proof fn law_client_without_path_field(request: RenderRequestView)
    requires
        wire_representable(request),
    ensures
        decode_client(encoded(request_fields(request).drop_last()).drop_last()) == Ok::<
            RenderRequestView,
            ProtocolErrorView,
        >(RenderRequestView {
            state: PromptStateView {
                env: PromptEnvView { path: None, ..request.state.env },
                ..request.state
            },
            ..request
        }),
{
    let fields = request_fields(request).drop_last();
    lemma_request_fields_wire_safe(request);
    assert forall|i: int| 0 <= i < fields.len() implies wire_safe(#[trigger] fields[i]) by {
        assert(fields[i] == request_fields(request)[i]);
    }
    lemma_encoded_fields(fields);
    lemma_decode_request_fields(request, fields);
}

/// A worker record read back from its own frame is the same record, when its
/// texts hold no separator.
pub proof fn law_worker_round_trip(record: WorkerRecordView)
    requires
        match record {
            WorkerRecordView::Handshake { session_token, .. } => wire_safe(session_token),
            WorkerRecordView::Prompt { output, .. } => wire_safe(output.prompt) && wire_safe(
                output.rprompt,
            ),
            WorkerRecordView::Update { output, .. } => wire_safe(output.prompt) && wire_safe(
                output.rprompt,
            ),
        },
    ensures
        encoded(worker_fields(record)).last() == RECORD_SEPARATOR,
        decode_worker(encoded(worker_fields(record)).drop_last()) == Ok::<
            WorkerRecordView,
            ProtocolErrorView,
        >(record),
{
    let fields = worker_fields(record);
    reveal_strlit("H");
    reveal_strlit("P");
    reveal_strlit("U");
    reveal_strlit("7");
    assert(wire_safe("H"@) && wire_safe("P"@) && wire_safe("U"@) && wire_safe("7"@));
    match record {
        WorkerRecordView::Handshake { session_token, initial_wait_ms } => {
            lemma_clean_wire_safe(session_token);
            crate::text::lemma_decimal_digits(initial_wait_ms as nat);
            lemma_digits_wire_safe(decimal(initial_wait_ms as nat));
            lemma_parse_unsigned_decimal(initial_wait_ms as nat, u64::MAX as nat);
        },
        WorkerRecordView::Prompt { generation, status, output } => {
            lemma_clean_wire_safe(output.prompt);
            lemma_clean_wire_safe(output.rprompt);
            crate::text::lemma_decimal_digits(generation as nat);
            lemma_digits_wire_safe(decimal(generation as nat));
            lemma_parse_unsigned_decimal(generation as nat, u64::MAX as nat);
            lemma_status_text(status);
        },
        WorkerRecordView::Update { generation, status, output } => {
            lemma_clean_wire_safe(output.prompt);
            lemma_clean_wire_safe(output.rprompt);
            crate::text::lemma_decimal_digits(generation as nat);
            lemma_digits_wire_safe(decimal(generation as nat));
            lemma_parse_unsigned_decimal(generation as nat, u64::MAX as nat);
            lemma_status_text(status);
        },
    }
    assert forall|i: int| 0 <= i < fields.len() implies wire_safe(#[trigger] fields[i]) by {}
    lemma_encoded_fields(fields);
    let f = split_on(encoded(fields).drop_last(), FIELD_SEPARATOR);
    assert(f == fields);
    match record {
        WorkerRecordView::Handshake { session_token, initial_wait_ms } => {
            assert(f[0] == "H"@);
            assert(f.len() == 4);
            assert(f[2] == session_token);
            assert(f[3] == decimal(initial_wait_ms as nat));
        },
        WorkerRecordView::Prompt { generation, status, output } => {
            assert(f[0] == "P"@);
            assert("P"@[0] != "H"@[0]);
            assert(f.len() == 5);
            assert(f[3] == output.prompt);
        },
        WorkerRecordView::Update { generation, status, output } => {
            assert(f[0] == "U"@);
            assert("U"@[0] != "H"@[0] && "U"@[0] != "P"@[0]);
            assert(f.len() == 5);
        },
    }
}

/// The frames of a stream are framed in order: framing two lists one after the
/// other frames their concatenation.
pub proof fn lemma_framed_concat(a: Seq<Seq<char>>, b: Seq<Seq<char>>)
    ensures
        framed(a) + framed(b) == framed(a + b),
    decreases b.len(),
{
    if b.len() == 0 {
        assert(a + b =~= a);
        assert(framed(a) + framed(b) =~= framed(a));
    } else {
        lemma_framed_concat(a, b.drop_last());
        assert((a + b).drop_last() =~= a + b.drop_last());
        assert((a + b).last() == b.last());
        assert(framed(a) + framed(b) =~= framed(a) + framed(b.drop_last()) + b.last().push(
            RECORD_SEPARATOR,
        ));
    }
}

proof fn lemma_framed_first(a: Seq<Seq<char>>)
    requires
        a.len() >= 1,
    ensures
        framed(a) == a[0].push(RECORD_SEPARATOR) + framed(a.drop_first()),
    decreases a.len(),
{
    if a.len() == 1 {
        assert(a.drop_first() =~= Seq::<Seq<char>>::empty());
        assert(a.drop_last() =~= Seq::<Seq<char>>::empty());
        assert(framed(a.drop_last()) == Seq::<char>::empty());
        assert(a.last() == a[0]);
        assert(framed(a) =~= a[0].push(RECORD_SEPARATOR) + framed(a.drop_first()));
    } else {
        lemma_framed_first(a.drop_last());
        assert(a.drop_last().drop_first() =~= a.drop_first().drop_last());
        assert(a.drop_first().last() == a.last());
        assert(a.drop_last()[0] == a[0]);
    }
}

/// There is one way to read a stream as RS-terminated frames followed by an
/// unterminated tail.
pub proof fn lemma_framed_unique(a: Seq<Seq<char>>, p: Seq<char>, b: Seq<Seq<char>>, q: Seq<char>)
    requires
        all_free_of_rs(a),
        all_free_of_rs(b),
        free_of(p, RECORD_SEPARATOR),
        free_of(q, RECORD_SEPARATOR),
        framed(a) + p == framed(b) + q,
    ensures
        a == b,
        p == q,
    decreases a.len() + b.len(),
{
    if a.len() == 0 && b.len() == 0 {
        assert(p =~= framed(a) + p);
        assert(q =~= framed(b) + q);
    } else if a.len() == 0 {
        lemma_framed_first(b);
        let x = b[0];
        assert(free_of(b[0], RECORD_SEPARATOR));
        assert((framed(b) + q)[x.len() as int] == RECORD_SEPARATOR);
        assert(framed(a) + p =~= p);
        assert(p[x.len() as int] == RECORD_SEPARATOR);
    } else if b.len() == 0 {
        lemma_framed_first(a);
        let x = a[0];
        assert(free_of(a[0], RECORD_SEPARATOR));
        assert((framed(a) + p)[x.len() as int] == RECORD_SEPARATOR);
        assert(framed(b) + q =~= q);
        assert(q[x.len() as int] == RECORD_SEPARATOR);
    } else {
        lemma_framed_first(a);
        lemma_framed_first(b);
        let x = a[0];
        let y = b[0];
        assert(free_of(a[0], RECORD_SEPARATOR));
        assert(free_of(b[0], RECORD_SEPARATOR));
        let s = framed(a) + p;
        assert(s[x.len() as int] == RECORD_SEPARATOR);
        assert(s[y.len() as int] == RECORD_SEPARATOR);
        if x.len() < y.len() {
            assert(s[x.len() as int] == y[x.len() as int]);
        } else if y.len() < x.len() {
            assert(s[y.len() as int] == x[y.len() as int]);
        }
        assert(x =~= s.take(x.len() as int));
        assert(y =~= s.take(y.len() as int));
        let ra = a.drop_first();
        let rb = b.drop_first();
        assert(framed(ra) + p =~= s.skip(x.len() as int + 1));
        assert(framed(rb) + q =~= s.skip(y.len() as int + 1));
        assert forall|i: int| 0 <= i < ra.len() implies free_of(#[trigger] ra[i], RECORD_SEPARATOR) by {
            assert(ra[i] == a[i + 1]);
        }
        assert forall|i: int| 0 <= i < rb.len() implies free_of(#[trigger] rb[i], RECORD_SEPARATOR) by {
            assert(rb[i] == b[i + 1]);
        }
        lemma_framed_unique(ra, p, rb, q);
        assert(a =~= seq![x] + ra);
        assert(b =~= seq![y] + rb);
    }
}

/// However a stream of frames is torn in two, a fresh decoder fed both pieces
/// yields exactly the frames, in order, and keeps nothing back. The two pushes
/// are described by what `FrameDecoder::push` ensures.
pub proof fn law_torn_frames(
    frames: Seq<Seq<char>>,
    first: Seq<char>,
    second: Seq<char>,
    out1: Seq<Seq<char>>,
    rest1: Seq<char>,
    out2: Seq<Seq<char>>,
    rest2: Seq<char>,
)
    requires
        all_free_of_rs(frames),
        first + second == framed(frames),
        Seq::<char>::empty() + first == framed(out1) + rest1,
        all_free_of_rs(out1),
        free_of(rest1, RECORD_SEPARATOR),
        rest1 + second == framed(out2) + rest2,
        all_free_of_rs(out2),
        free_of(rest2, RECORD_SEPARATOR),
    ensures
        out1 + out2 == frames,
        rest2 == Seq::<char>::empty(),
{
    assert(Seq::<char>::empty() + first =~= first);
    lemma_framed_concat(out1, out2);
    assert(framed(out1) + framed(out2) + rest2 =~= framed(out1) + (rest1 + second));
    assert(framed(out1 + out2) + rest2 =~= framed(frames) + Seq::<char>::empty());
    assert forall|i: int| 0 <= i < (out1 + out2).len() implies free_of(
        #[trigger] (out1 + out2)[i],
        RECORD_SEPARATOR,
    ) by {
        if i < out1.len() {
            assert((out1 + out2)[i] == out1[i]);
        } else {
            assert((out1 + out2)[i] == out2[i - out1.len()]);
        }
    }
    assert(free_of(Seq::<char>::empty(), RECORD_SEPARATOR));
    lemma_framed_unique(out1 + out2, rest2, frames, Seq::<char>::empty());
}

} // verus!
