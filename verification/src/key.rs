//! Key material: decoding what a prompt or a file delivered, and the dialogue
//! that asks for a password until it was entered the same way twice.

use crate::config::{EncryptionMode, PinMode, PrivateImageKeyMode, SharedImageKeyMode};
use crate::error::Error;
use crate::text::{text_eq, trim, trimmed};
use vstd::prelude::*;
use vstd::string::*;
use vstd::utf8::{decode_utf8, valid_utf8};

verus! {

/// `String::from_utf8` of the standard library: the bytes are accepted exactly
/// when they are well-formed UTF-8, and the text then holds the characters
/// that they encode.
#[verifier::external_body]
fn decode(data: Vec<u8>) -> (r: Option<String>)
    ensures
        r is Some <==> valid_utf8(data@),
        r is Some ==> r->0@ == decode_utf8(data@),
{
    String::from_utf8(data).ok()
}

/// Reads `data` as UTF-8 text. Bytes that are not UTF-8 are a `Schema` error.
pub fn from_utf8(data: Vec<u8>) -> (r: Result<String, Error>)
    ensures
        valid_utf8(data@) ==> r is Ok && r->Ok_0@ == decode_utf8(data@),
        !valid_utf8(data@) ==> r == Err::<String, Error>(Error::Schema),
{
    match decode(data) {
        Some(s) => Ok(s),
        None => Err(Error::Schema),
    }
}

/// Whether `data` is well-formed UTF-8.
pub fn is_utf8(data: &Vec<u8>) -> (r: bool)
    ensures
        r == valid_utf8(data@),
{
    let copy = data.clone();
    assert(copy@ =~= data@);
    decode(copy).is_some()
}

/// What the operator meant by a reply: its text without the white space
/// around it.
pub open spec fn entry_of(reply: Seq<u8>) -> Seq<char> {
    trimmed(decode_utf8(reply))
}

/// Turns the bytes that a prompt delivered into the operator's entry.
pub fn entry_from_reply(reply: Vec<u8>) -> (r: Result<String, Error>)
    ensures
        valid_utf8(reply@) ==> r is Ok && r->Ok_0@ == entry_of(reply@),
        !valid_utf8(reply@) ==> r == Err::<String, Error>(Error::KeyFile),
{
    match decode(reply) {
        Some(s) => Ok(trim(s.as_str())),
        None => Err(Error::KeyFile),
    }
}

/// Turns the content of a key file, or of standard input, into the key. The
/// content is taken as it is: nothing is trimmed.
pub fn key_from_bytes(content: Vec<u8>) -> (r: Result<String, Error>)
    ensures
        valid_utf8(content@) ==> r is Ok && r->Ok_0@ == decode_utf8(content@),
        !valid_utf8(content@) ==> r == Err::<String, Error>(Error::KeyFile),
{
    match decode(content) {
        Some(s) => Ok(s),
        None => Err(Error::KeyFile),
    }
}

/// Where the password dialogue stands.
pub enum PasswordState {
    /// The password is about to be asked for; `retry` says that the last two
    /// entries differed.
    First { retry: bool },
    /// The password was entered once and is about to be asked for again.
    Confirm { first: String },
}

/// The content of a `PasswordState`.
pub enum PasswordStateView {
    First { retry: bool },
    Confirm { first: Seq<char> },
}

impl View for PasswordState {
    type V = PasswordStateView;

    open spec fn view(&self) -> PasswordStateView {
        match self {
            PasswordState::First { retry } => PasswordStateView::First { retry: *retry },
            PasswordState::Confirm { first } => PasswordStateView::Confirm { first: first@ },
        }
    }
}

/// What the dialogue wants next.
pub enum PasswordStep {
    /// Show the prompt of `state` and come back with the reply.
    Ask { state: PasswordState },
    /// The password is settled.
    Done { password: String },
    /// The reply cannot be used.
    Failed { error: Error },
}

/// The content of a `PasswordStep`.
pub enum PasswordStepView {
    Ask { state: PasswordStateView },
    Done { password: Seq<char> },
    Failed { error: Error },
}

impl View for PasswordStep {
    type V = PasswordStepView;

    open spec fn view(&self) -> PasswordStepView {
        match self {
            PasswordStep::Ask { state } => PasswordStepView::Ask { state: state@ },
            PasswordStep::Done { password } => PasswordStepView::Done { password: password@ },
            PasswordStep::Failed { error } => PasswordStepView::Failed { error: *error },
        }
    }
}

/// The dialogue's rule. A reply that is not UTF-8 ends it. Without
/// confirmation the first entry is the password. With confirmation the
/// password is settled once an entry is repeated by the next one; two entries
/// that differ start the dialogue over.
pub open spec fn password_step(
    state: PasswordStateView,
    confirm: bool,
    reply: Seq<u8>,
) -> PasswordStepView {
    if !valid_utf8(reply) {
        PasswordStepView::Failed { error: Error::KeyFile }
    } else {
        match state {
            PasswordStateView::First { retry } => if confirm {
                PasswordStepView::Ask { state: PasswordStateView::Confirm { first: entry_of(reply) } }
            } else {
                PasswordStepView::Done { password: entry_of(reply) }
            },
            PasswordStateView::Confirm { first } => if first == entry_of(reply) {
                PasswordStepView::Done { password: first }
            } else {
                PasswordStepView::Ask { state: PasswordStateView::First { retry: true } }
            },
        }
    }
}

/// Where the dialogue stands after `replies`, one after the other, starting
/// from `state`; replies behind the one that ended the dialogue are not read.
pub open spec fn password_run(
    state: PasswordStateView,
    confirm: bool,
    replies: Seq<Seq<u8>>,
) -> PasswordStepView
    decreases replies.len(),
{
    if replies.len() == 0 {
        PasswordStepView::Ask { state }
    } else {
        match password_step(state, confirm, replies[0]) {
            PasswordStepView::Ask { state: next } => password_run(
                next,
                confirm,
                replies.drop_first(),
            ),
            other => other,
        }
    }
}

/// The text shown to the operator in `state`.
pub open spec fn prompt_of(state: PasswordStateView) -> Seq<char> {
    match state {
        PasswordStateView::First { retry } => if retry {
            "Passwords didn't match, please try again.\n"@ + "Enter the password"@
        } else {
            "Enter the password"@
        },
        PasswordStateView::Confirm { .. } => "Confirm your password"@,
    }
}

/// The state in which the dialogue begins.
pub fn password_start() -> (r: PasswordState)
    ensures
        r@ == (PasswordStateView::First { retry: false }),
{
    PasswordState::First { retry: false }
}

/// The text to show to the operator in `state`.
pub fn password_prompt(state: &PasswordState) -> (r: String)
    ensures
        r@ == prompt_of(state@),
{
    match state {
        PasswordState::First { retry } => {
            let mut prompt = String::new();
            if *retry {
                prompt.append("Passwords didn't match, please try again.\n");
            }
            prompt.append("Enter the password");
            prompt
        },
        PasswordState::Confirm { .. } => String::from_str("Confirm your password"),
    }
}

/// Takes the reply to the prompt of `state` and says how the dialogue goes on.
pub fn password_next(state: PasswordState, confirm: bool, reply: Vec<u8>) -> (r: PasswordStep)
    ensures
        r@ == password_step(state@, confirm, reply@),
{
    match entry_from_reply(reply) {
        Err(error) => PasswordStep::Failed { error },
        Ok(entry) => match state {
            PasswordState::First { .. } => if confirm {
                PasswordStep::Ask { state: PasswordState::Confirm { first: entry } }
            } else {
                PasswordStep::Done { password: entry }
            },
            PasswordState::Confirm { first } => if text_eq(first.as_str(), entry.as_str()) {
                PasswordStep::Done { password: first }
            } else {
                PasswordStep::Ask { state: PasswordState::First { retry: true } }
            },
        },
    }
}

/// A password that was settled with confirmation was entered twice in a row:
/// some reply and the one after it both spell it. (From a state in which one
/// entry is already held, that entry and the first reply may be the two.)
pub proof fn lemma_confirmed_password_entered_twice(
    state: PasswordStateView,
    replies: Seq<Seq<u8>>,
    password: Seq<char>,
)
    requires
        password_run(state, true, replies) == (PasswordStepView::Done { password }),
    ensures
        (state matches PasswordStateView::Confirm { first } && replies.len() > 0 && first
            == password && entry_of(replies[0]) == password) || exists|k: int|
            0 <= k && k + 1 < replies.len() && entry_of(#[trigger] replies[k]) == password
                && entry_of(replies[k + 1]) == password,
    decreases replies.len(),
{
    if replies.len() > 0 {
        let rest = replies.drop_first();
        match password_step(state, true, replies[0]) {
            PasswordStepView::Ask { state: next } => {
                lemma_confirmed_password_entered_twice(next, rest, password);
                if next matches PasswordStateView::Confirm { first } && rest.len() > 0 && first
                    == password && entry_of(rest[0]) == password {
                    let k0: int = 0;
                    assert(entry_of(replies[k0]) == password && entry_of(replies[k0 + 1])
                        == password);
                } else {
                    let k = choose|k: int|
                        0 <= k && k + 1 < rest.len() && entry_of(#[trigger] rest[k]) == password
                            && entry_of(rest[k + 1]) == password;
                    assert(rest[k] == replies[k + 1]);
                    assert(rest[k + 1] == replies[k + 1 + 1]);
                    assert(entry_of(replies[k + 1]) == password && entry_of(replies[k + 1 + 1])
                        == password);
                }
            },
            _ => {},
        }
    }
}

/// Where the key comes from.
#[derive(Debug, PartialEq, Eq)]
pub enum KeySource {
    /// There is no key: the volume is not encrypted.
    NoKey,
    /// The key is all of standard input, as it is.
    Stdin,
    /// The key is the content of the file at `path`, as it is.
    File { path: String },
    /// The key is a password that the operator enters.
    Password,
    /// The key lies encrypted in the file at `key_path`; a smartcard whose
    /// PIN is obtained as `pin` says decrypts it.
    Smartcard { key_path: String, pin: PinMode },
}

/// The content of a `KeySource`.
pub enum KeySourceView {
    NoKey,
    Stdin,
    File { path: Seq<char> },
    Password,
    Smartcard { key_path: Seq<char>, pin: PinMode },
}

impl View for KeySource {
    type V = KeySourceView;

    open spec fn view(&self) -> KeySourceView {
        match self {
            KeySource::NoKey => KeySourceView::NoKey,
            KeySource::Stdin => KeySourceView::Stdin,
            KeySource::File { path } => KeySourceView::File { path: path@ },
            KeySource::Password => KeySourceView::Password,
            KeySource::Smartcard { key_path, pin } => KeySourceView::Smartcard {
                key_path: key_path@,
                pin: *pin,
            },
        }
    }
}

/// Where the key for `mode` comes from. Only an unencrypted volume has none.
pub open spec fn key_source_of(mode: EncryptionMode) -> KeySourceView {
    match mode {
        EncryptionMode::Unencrypted => KeySourceView::NoKey,
        EncryptionMode::DirectKey(args) => match args.key_mode {
            SharedImageKeyMode::Stdin => KeySourceView::Stdin,
            SharedImageKeyMode::File(path) => KeySourceView::File { path: path@ },
            SharedImageKeyMode::Password => KeySourceView::Password,
        },
        EncryptionMode::IndirectKey(args) => match args.key_mode {
            PrivateImageKeyMode::Smartcard { pin } => KeySourceView::Smartcard {
                key_path: args.key_path@,
                pin,
            },
        },
    }
}

/// Says where the key for `mode` comes from.
pub fn key_source(mode: &EncryptionMode) -> (r: KeySource)
    ensures
        r@ == key_source_of(*mode),
{
    match mode {
        EncryptionMode::Unencrypted => KeySource::NoKey,
        EncryptionMode::DirectKey(args) => match &args.key_mode {
            SharedImageKeyMode::Stdin => KeySource::Stdin,
            SharedImageKeyMode::File(path) => KeySource::File { path: path.clone() },
            SharedImageKeyMode::Password => KeySource::Password,
        },
        EncryptionMode::IndirectKey(args) => match args.key_mode {
            PrivateImageKeyMode::Smartcard { pin } => KeySource::Smartcard {
                key_path: args.key_path.clone(),
                pin,
            },
        },
    }
}

} // verus!
