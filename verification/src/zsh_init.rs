//! The zsh adapter script: the template with the binary path, the protocol version
//! and the session token filled in.
//!
//! The template text and the random bytes of the session token are supplied by the
//! caller.

use vstd::prelude::*;

use crate::segments::runtime::collect::hex_char;
use crate::text::{chars_of, push_char, push_str, string_of};
use crate::worker::protocol::VERSION;

verus! {

/// `s` with every occurrence of `from` replaced by `to`, left to right and without
/// overlaps, as `str::replace` does for a non-empty pattern.
pub open spec fn replace_all(s: Seq<char>, from: Seq<char>, to: Seq<char>) -> Seq<char>
    decreases s.len(),
{
    if from.len() == 0 || s.len() < from.len() {
        s
    } else if s.take(from.len() as int) == from {
        to + replace_all(s.skip(from.len() as int), from, to)
    } else {
        seq![s[0]] + replace_all(s.drop_first(), from, to)
    }
}

/// `s` in single quotes, each single quote inside closed, escaped and reopened.
pub open spec fn single_quoted(s: Seq<char>) -> Seq<char> {
    seq!['\''] + replace_all(s, seq!['\''], seq!['\'', '\\', '\'', '\'']) + seq!['\'']
}

/// Two lowercase hexadecimal digits per byte.
pub open spec fn hex_of(bytes: Seq<u8>) -> Seq<char>
    decreases bytes.len(),
{
    if bytes.len() == 0 {
        seq![]
    } else {
        hex_of(bytes.drop_last()) + seq![
            hex_char((bytes.last() / 16) as nat),
            hex_char((bytes.last() % 16) as nat),
        ]
    }
}

/// The zsh expression a session token is made of when no random bytes could be had.
pub open spec fn fallback_token_expression() -> Seq<char> {
    "\"${RANDOM}${RANDOM}${RANDOM}${RANDOM}${RANDOM}${RANDOM}${RANDOM}${RANDOM}-$$\""@
}

/// What the session token placeholder is replaced with.
pub open spec fn token_initializer(random: Option<Seq<u8>>) -> Seq<char> {
    match random {
        Some(bytes) => single_quoted(hex_of(bytes)),
        None => fallback_token_expression(),
    }
}

/// The script the template gives.
pub open spec fn init_script(
    template: Seq<char>,
    binary_path: Seq<char>,
    version: Seq<char>,
    session_token_initializer: Seq<char>,
) -> Seq<char> {
    replace_all(
        replace_all(
            replace_all(template, "@NOVA_BIN@"@, single_quoted(binary_path)),
            "@NOVA_PROTOCOL_VERSION@"@,
            version,
        ),
        "@NOVA_SESSION_TOKEN@"@,
        session_token_initializer,
    )
}

fn matches_at(s: &Vec<char>, i: usize, p: &Vec<char>) -> (r: bool)
    requires
        i <= s.len(),
    ensures
        r == (s@.len() - i >= p@.len() && s@.skip(i as int).take(p@.len() as int) == p@),
{
    if s.len() - i < p.len() {
        return false;
    }
    let mut k: usize = 0;
    while k < p.len()
        invariant
            k <= p.len(),
            i + p.len() <= s.len(),
            forall|j: int| 0 <= j < k ==> s@[i + j] == p@[j],
        decreases p.len() - k,
    {
        if s[i + k] != p[k] {
            assert(s@.skip(i as int).take(p@.len() as int)[k as int] != p@[k as int]);
            return false;
        }
        k += 1;
    }
    assert(s@.skip(i as int).take(p@.len() as int) =~= p@);
    true
}

/// `s` with every occurrence of the non-empty `from` replaced by `to`.
pub fn replace_text(s: &str, from: &str, to: &str) -> (r: String)
    requires
        from@.len() > 0,
    ensures
        r@ == replace_all(s@, from@, to@),
{
    let cs = chars_of(s);
    let pat = chars_of(from);
    let mut out = String::new();
    let mut i: usize = 0;
    assert(cs@.skip(0) =~= cs@);
    while i < cs.len()
        invariant
            i <= cs.len(),
            cs@ == s@,
            pat@ == from@,
            pat@.len() > 0,
            out@ + replace_all(cs@.skip(i as int), from@, to@) == replace_all(s@, from@, to@),
        decreases cs.len() - i,
    {
        let ghost rest = cs@.skip(i as int);
        let ghost before = out@;
        if matches_at(&cs, i, &pat) {
            proof {
                assert(rest.take(from@.len() as int) == from@);
                assert(rest.skip(from@.len() as int) =~= cs@.skip(i + pat@.len()));
            }
            push_str(&mut out, to);
            i += pat.len();
            assert(out@ + replace_all(cs@.skip(i as int), from@, to@) =~= before + (to@
                + replace_all(rest.skip(from@.len() as int), from@, to@)));
        } else {
            proof {
                if rest.len() >= from@.len() {
                    assert(rest.take(from@.len() as int) != from@);
                }
                assert(rest.drop_first() =~= cs@.skip(i + 1));
                assert(rest[0] == cs@[i as int]);
            }
            push_char(&mut out, cs[i]);
            i += 1;
            proof {
                if rest.len() >= from@.len() {
                    assert(out@ + replace_all(cs@.skip(i as int), from@, to@) =~= before + (seq![
                        rest[0],
                    ] + replace_all(rest.drop_first(), from@, to@)));
                } else {
                    assert(replace_all(rest, from@, to@) == rest);
                    assert(cs@.skip(i as int).len() < from@.len());
                    assert(replace_all(cs@.skip(i as int), from@, to@) == cs@.skip(i as int));
                    assert(out@ + cs@.skip(i as int) =~= before + rest);
                }
            }
        }
    }
    assert(cs@.skip(i as int) =~= Seq::<char>::empty());
    assert(out@ + Seq::<char>::empty() =~= out@);
    out
}

/// `input` as a single-quoted zsh word.
pub fn zsh_single_quote(input: &str) -> (r: String)
    ensures
        r@ == single_quoted(input@),
{
    let mut r = String::new();
    push_char(&mut r, '\'');
    proof {
        reveal_strlit("'");
        reveal_strlit("'\\''");
        assert("'"@ =~= seq!['\'']);
        assert("'\\''"@ =~= seq!['\'', '\\', '\'', '\'']);
    }
    let body = replace_text(input, "'", "'\\''");
    push_str(&mut r, body.as_str());
    push_char(&mut r, '\'');
    r
}

fn hex_digit(d: u8) -> (c: char)
    requires
        d < 16,
    ensures
        c == hex_char(d as nat),
{
    let digits = ['0', '1', '2', '3', '4', '5', '6', '7', '8', '9', 'a', 'b', 'c', 'd', 'e', 'f'];
    assert(digits@ =~= seq!['0', '1', '2', '3', '4', '5', '6', '7', '8', '9', 'a', 'b', 'c', 'd', 'e', 'f']);
    digits[d as usize]
}

/// The bytes in lowercase hexadecimal, two digits each.
pub fn hex_encode(bytes: &[u8]) -> (r: String)
    ensures
        r@ == hex_of(bytes@),
{
    let mut r = String::new();
    let mut i: usize = 0;
    assert(bytes@.take(0) =~= Seq::<u8>::empty());
    while i < bytes.len()
        invariant
            i <= bytes.len(),
            r@ == hex_of(bytes@.take(i as int)),
        decreases bytes.len() - i,
    {
        let b = bytes[i];
        push_char(&mut r, hex_digit(b / 16));
        push_char(&mut r, hex_digit(b % 16));
        assert(bytes@.take(i + 1).drop_last() =~= bytes@.take(i as int));
        assert(bytes@.take(i + 1).last() == b);
        i += 1;
        assert(r@ =~= hex_of(bytes@.take(i as int)));
    }
    assert(bytes@.take(i as int) =~= bytes@);
    r
}

/// The session token expression used when no random bytes could be had.
pub fn zsh_random_session_token_expression() -> (r: String)
    ensures
        r@ == fallback_token_expression(),
{
    "\"${RANDOM}${RANDOM}${RANDOM}${RANDOM}${RANDOM}${RANDOM}${RANDOM}${RANDOM}-$$\"".to_string()
}

/// What the session token placeholder is replaced with: the random bytes in
/// hexadecimal, single-quoted, or the fallback expression when there are none.
pub fn session_token_initializer(random: Option<&[u8]>) -> (r: String)
    ensures
        r@ == token_initializer(
            match random {
                Some(b) => Some(b@),
                None => None,
            },
        ),
{
    match random {
        Some(bytes) => {
            let token = hex_encode(bytes);
            zsh_single_quote(token.as_str())
        },
        None => zsh_random_session_token_expression(),
    }
}

/// The script `template` gives for the binary at `binary_path` and a session token
/// initializer (a zsh word or expression).
pub fn render_init_script_with_session_token_initializer(
    template: &str,
    binary_path: &str,
    session_token_initializer: &str,
) -> (r: String)
    ensures
        r@ == init_script(template@, binary_path@, VERSION@, session_token_initializer@),
{
    let quoted = zsh_single_quote(binary_path);
    proof {
        reveal_strlit("@NOVA_BIN@");
        reveal_strlit("@NOVA_PROTOCOL_VERSION@");
        reveal_strlit("@NOVA_SESSION_TOKEN@");
    }
    let a = replace_text(template, "@NOVA_BIN@", quoted.as_str());
    let b = replace_text(a.as_str(), "@NOVA_PROTOCOL_VERSION@", VERSION);
    replace_text(b.as_str(), "@NOVA_SESSION_TOKEN@", session_token_initializer)
}

/// The script `template` gives for the binary at `binary_path` and the session token
/// `session_token`.
pub fn render_init_script_with_session_token(template: &str, binary_path: &str, session_token: &str) -> (r: String)
    ensures
        r@ == init_script(template@, binary_path@, VERSION@, single_quoted(session_token@)),
{
    let initializer = zsh_single_quote(session_token);
    render_init_script_with_session_token_initializer(template, binary_path, initializer.as_str())
}

/// The script `template` gives for the binary at `binary_path`, its session token made
/// of `random` (sixteen random bytes), or of the fallback expression when none could
/// be had.
pub fn render_init_script(template: &str, binary_path: &str, random: Option<&[u8]>) -> (r: String)
    ensures
        r@ == init_script(
            template@,
            binary_path@,
            VERSION@,
            token_initializer(
                match random {
                    Some(b) => Some(b@),
                    None => None,
                },
            ),
        ),
{
    let initializer = session_token_initializer(random);
    render_init_script_with_session_token_initializer(template, binary_path, initializer.as_str())
}

} // verus!
