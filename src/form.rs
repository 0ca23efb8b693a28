use vstd::prelude::*;

use crate::chain_config::{ChainConfig, ChainStatus};
use crate::text::{
    eq_ignore_ascii_case, is_blank, is_white_space, parse_unsigned, parsed_unsigned,
    same_ignoring_ascii_case,
};

verus! {

/// The text fields an operator fills in to create a chain.
#[derive(Debug)]
pub struct NewChainForm {
    pub name: String,
    pub chain_id: String,
    pub port: String,
    pub block_time: String,
}

/// Why a filled-in form is refused.
#[derive(Debug, Clone, Copy, PartialEq, Eq, Structural)]
pub enum FormError {
    NameRequired,
    NameCharacters,
    NameTaken,
    InvalidChainId,
    ChainIdTaken,
    InvalidPort,
    PortTaken,
    ZeroBlockTime,
}

impl FormError {
    pub fn message(&self) -> (r: &'static str)
        ensures
            r@ == form_message(*self),
    {
        match self {
            FormError::NameRequired => "Name is required",
            FormError::NameCharacters => "Name must be alphanumeric (dash/underscore allowed)",
            FormError::NameTaken => "Name must be unique",
            FormError::InvalidChainId => "Invalid Chain ID",
            FormError::ChainIdTaken => "Chain ID must be unique",
            FormError::InvalidPort => "Invalid Port",
            FormError::PortTaken => "Port must be unique",
            FormError::ZeroBlockTime => "Block time must be greater than 0",
        }
    }
}

pub open spec fn form_message(e: FormError) -> Seq<char> {
    match e {
        FormError::NameRequired => "Name is required"@,
        FormError::NameCharacters => "Name must be alphanumeric (dash/underscore allowed)"@,
        FormError::NameTaken => "Name must be unique"@,
        FormError::InvalidChainId => "Invalid Chain ID"@,
        FormError::ChainIdTaken => "Chain ID must be unique"@,
        FormError::InvalidPort => "Invalid Port"@,
        FormError::PortTaken => "Port must be unique"@,
        FormError::ZeroBlockTime => "Block time must be greater than 0"@,
    }
}

pub open spec fn name_char(c: char) -> bool {
    ('a' <= c && c <= 'z') || ('A' <= c && c <= 'Z') || ('0' <= c && c <= '9') || c == '-' || c
        == '_'
}

pub open spec fn name_used(existing: Seq<ChainConfig>, name: Seq<char>) -> bool {
    exists|j: int| 0 <= j < existing.len() && same_ignoring_ascii_case(#[trigger] existing[j].name@, name)
}

pub open spec fn id_used(existing: Seq<ChainConfig>, id: nat) -> bool {
    exists|j: int| 0 <= j < existing.len() && #[trigger] existing[j].id == id
}

pub open spec fn port_used(existing: Seq<ChainConfig>, port: nat) -> bool {
    exists|j: int| 0 <= j < existing.len() && #[trigger] existing[j].port == port
}

/// The first rule, in this order, that the form breaks.
pub open spec fn form_verdict(
    name: Seq<char>,
    chain_id: Seq<char>,
    port: Seq<char>,
    block_time: Seq<char>,
    existing: Seq<ChainConfig>,
) -> Result<(), FormError> {
    if forall|i: int| 0 <= i < name.len() ==> is_white_space(#[trigger] name[i]) {
        Err(FormError::NameRequired)
    } else if !(forall|i: int| 0 <= i < name.len() ==> name_char(#[trigger] name[i])) {
        Err(FormError::NameCharacters)
    } else if name_used(existing, name) {
        Err(FormError::NameTaken)
    } else {
        match parsed_unsigned(chain_id, u64::MAX as nat) {
            None => Err(FormError::InvalidChainId),
            Some(cid) => if id_used(existing, cid) {
                Err(FormError::ChainIdTaken)
            } else {
                match parsed_unsigned(port, u16::MAX as nat) {
                    None => Err(FormError::InvalidPort),
                    Some(p) => if port_used(existing, p) {
                        Err(FormError::PortTaken)
                    } else {
                        if form_block_time(block_time) == 0 {
                            Err(FormError::ZeroBlockTime)
                        } else {
                            Ok(())
                        }
                    },
                }
            },
        }
    }
}

fn all_name_chars(s: &str) -> (r: bool)
    ensures
        r == (forall|i: int| 0 <= i < s@.len() ==> name_char(#[trigger] s@[i])),
{
    let n = s.unicode_len();
    let mut i: usize = 0;
    while i < n
        invariant
            i <= n,
            n == s@.len(),
            forall|k: int| 0 <= k < i ==> name_char(#[trigger] s@[k]),
        decreases n - i,
    {
        let c = s.get_char(i);
        let ok = ('a' <= c && c <= 'z') || ('A' <= c && c <= 'Z') || ('0' <= c && c <= '9') || c
            == '-' || c == '_';
        if !ok {
            return false;
        }
        i = i + 1;
    }
    true
}

fn name_taken(existing: &Vec<ChainConfig>, name: &str) -> (r: bool)
    ensures
        r == name_used(existing@, name@),
{
    let mut j: usize = 0;
    while j < existing.len()
        invariant
            j <= existing@.len(),
            forall|k: int|
                0 <= k < j ==> !same_ignoring_ascii_case(#[trigger] existing@[k].name@, name@),
        decreases existing@.len() - j,
    {
        if eq_ignore_ascii_case(existing[j].name.as_str(), name) {
            return true;
        }
        j = j + 1;
    }
    false
}

fn id_taken(existing: &Vec<ChainConfig>, id: u64) -> (r: bool)
    ensures
        r == id_used(existing@, id as nat),
{
    let mut j: usize = 0;
    while j < existing.len()
        invariant
            j <= existing@.len(),
            forall|k: int| 0 <= k < j ==> #[trigger] existing@[k].id != id,
        decreases existing@.len() - j,
    {
        if existing[j].id == id {
            return true;
        }
        j = j + 1;
    }
    false
}

fn port_taken(existing: &Vec<ChainConfig>, port: u16) -> (r: bool)
    ensures
        r == port_used(existing@, port as nat),
{
    let mut j: usize = 0;
    while j < existing.len()
        invariant
            j <= existing@.len(),
            forall|k: int| 0 <= k < j ==> #[trigger] existing@[k].port != port,
        decreases existing@.len() - j,
    {
        if existing[j].port == port {
            return true;
        }
        j = j + 1;
    }
    false
}

impl NewChainForm {
    /// Checks the form against the chains that exist: a non-blank name of
    /// letters, digits, `-` and `_`, unique up to ASCII case; a unique
    /// numeric chain id; a unique port; a block time that is not 0 (text
    /// that is not a number counts as 1).
    pub fn validate(&self, existing: &Vec<ChainConfig>) -> (r: Result<(), FormError>)
        ensures
            r == form_verdict(self.name@, self.chain_id@, self.port@, self.block_time@, existing@),
    {
        if is_blank(self.name.as_str()) {
            return Err(FormError::NameRequired);
        }
        if !all_name_chars(self.name.as_str()) {
            return Err(FormError::NameCharacters);
        }
        if name_taken(existing, self.name.as_str()) {
            return Err(FormError::NameTaken);
        }
        let cid = match parse_unsigned(self.chain_id.as_str(), u64::MAX) {
            None => return Err(FormError::InvalidChainId),
            Some(v) => v,
        };
        if id_taken(existing, cid) {
            return Err(FormError::ChainIdTaken);
        }
        let port = match parse_unsigned(self.port.as_str(), u16::MAX as u64) {
            None => return Err(FormError::InvalidPort),
            Some(v) => v as u16,
        };
        if port_taken(existing, port) {
            return Err(FormError::PortTaken);
        }
        let bt = match parse_unsigned(self.block_time.as_str(), u64::MAX) {
            Some(v) => v,
            None => 1,
        };
        if bt == 0 {
            return Err(FormError::ZeroBlockTime);
        }
        Ok(())
    }

    /// The configuration the form describes, stopped and not forked. Fields
    /// that do not parse fall back to chain id 31337, port 8545 and block
    /// time 1, the same block time that `validate` assumes.
    pub fn to_config(&self) -> (r: ChainConfig)
        ensures
            r.name == self.name,
            r.id as nat == (match parsed_unsigned(self.chain_id@, u64::MAX as nat) {
                Some(v) => v,
                None => 31337,
            }),
            r.port as nat == (match parsed_unsigned(self.port@, u16::MAX as nat) {
                Some(v) => v,
                None => 8545,
            }),
            r.block_time as nat == form_block_time(self.block_time@),
            r.fork_url.is_none(),
            r.status == ChainStatus::Stopped,
    {
        let id = match parse_unsigned(self.chain_id.as_str(), u64::MAX) {
            Some(v) => v,
            None => 31337,
        };
        let port = match parse_unsigned(self.port.as_str(), u16::MAX as u64) {
            Some(v) => v as u16,
            None => 8545,
        };
        let block_time = match parse_unsigned(self.block_time.as_str(), u64::MAX) {
            Some(v) => v,
            None => 1,
        };
        ChainConfig {
            name: self.name.clone(),
            id,
            port,
            block_time,
            fork_url: None,
            status: ChainStatus::Stopped,
        }
    }
}

/// The block time that `to_config` gives for the text `block_time`.
pub open spec fn form_block_time(block_time: Seq<char>) -> nat {
    match parsed_unsigned(block_time, u64::MAX as nat) {
        Some(v) => v,
        None => 1,
    }
}

/// A form that passes validation describes a chain whose block time is not 0.
pub proof fn lemma_valid_form_block_time(
    name: Seq<char>,
    chain_id: Seq<char>,
    port: Seq<char>,
    block_time: Seq<char>,
    existing: Seq<ChainConfig>,
)
    requires
        form_verdict(name, chain_id, port, block_time, existing) is Ok,
    ensures
        form_block_time(block_time) > 0,
{
}

} // verus!
