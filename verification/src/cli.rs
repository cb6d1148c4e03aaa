//! What the command line asks for, once its words are parsed.
//!
//! Parsing the words, printing and leaving the process are the caller's.
//! Here stands the order in which the options are looked at, what is refused
//! and with which exit code, and the state that a search starts from.
use crate::address::{
    calculate_part_split_key, is_result_for, join_split_key, SplitKeyFragment,
};
use crate::curve::{base_multiple, group_order, Scalar};
use crate::keys::{
    hex_bytes, hex_text, is_private_key_text, is_public_key_text, parse_private_key,
    parse_public_key, FoundResult,
};
use crate::pattern::{
    pattern_fault, pattern_source, regex_compiles, InvalidPattern, Pattern, PatternType,
};
use crate::state::{RunPhase, State};
use crate::threads::{corrected_threads, ThreadNotice, Threads};
use vstd::prelude::*;
use vstd::string::*;

verus! {

/// The options of the command line.
pub struct Cli {
    /// How many threads to use; zero stands for half of the machine.
    pub threads: usize,
    /// Address regex pattern to look for.
    pub pattern: String,
    /// Start from the first character instead of wrapping the pattern.
    pub first: bool,
    /// How many milliseconds in-between output refreshes.
    pub refresh: u64,
    /// Generate a new split key and leave.
    pub gen_private_split_key: bool,
    /// Search on behalf of this public split key.
    pub calculate_split_key: Option<String>,
    /// Join these two private parts of a split key and leave.
    pub join_split_key: Option<Vec<String>>,
}

/// Why the command line is refused.
#[derive(Clone, Copy, Debug, PartialEq, Eq, Structural)]
pub enum CliError {
    /// The pattern is no good.
    Pattern(InvalidPattern),
    /// The public split key is not a point.
    PublicKey,
    /// A private part of a split key is not a scalar, or one is missing.
    PrivateKey,
}

/// What the command line asks for.
pub enum CliAction {
    /// Make a fresh split key, show both halves and leave.
    GenPrivateSplitKey,
    /// Join the two private parts, show the key pair and leave.
    JoinSplitKey(Scalar, Scalar),
    /// Search. The state is set up and idle; the notice says what was done to
    /// the thread count, and the number is the refresh interval in
    /// milliseconds.
    Search(State, ThreadNotice, u64),
}

impl CliError {
    /// What is said of this refusal, after the word `ERROR: `.
    pub open spec fn message_text(self) -> Seq<char> {
        match self {
            CliError::Pattern(InvalidPattern::Empty) => "Address pattern is empty"@,
            CliError::Pattern(fault) => fault.message_text(),
            CliError::PublicKey => "Public key entered is not a valid point"@,
            CliError::PrivateKey => "Private key part entered is not a valid scalar"@,
        }
    }

    /// What is said of this refusal, after the word `ERROR: `.
    pub fn message(&self) -> (text: &'static str)
        ensures
            text@ == self.message_text(),
    {
        match self {
            CliError::Pattern(InvalidPattern::Empty) => "Address pattern is empty",
            CliError::Pattern(fault) => fault.message(),
            CliError::PublicKey => "Public key entered is not a valid point",
            CliError::PrivateKey => "Private key part entered is not a valid scalar",
        }
    }

    /// The exit code of the process for this refusal.
    pub open spec fn spec_exit_code(self) -> u8 {
        match self {
            CliError::Pattern(InvalidPattern::Empty) => 1,
            CliError::Pattern(InvalidPattern::Forbidden(c)) => if c == 'I' {
                2
            } else if c == 'O' {
                3
            } else if c == 'l' {
                4
            } else if c == '0' {
                5
            } else if c == '+' {
                6
            } else {
                7
            },
            CliError::Pattern(InvalidPattern::Malformed) => 8,
            CliError::PublicKey => 9,
            CliError::PrivateKey => 10,
        }
    }

    /// The exit code of the process for this refusal.
    pub fn exit_code(&self) -> (code: u8)
        ensures
            code == self.spec_exit_code(),
            1 <= code <= 10,
    {
        match self {
            CliError::Pattern(InvalidPattern::Empty) => 1,
            CliError::Pattern(InvalidPattern::Forbidden(c)) => if *c == 'I' {
                2
            } else if *c == 'O' {
                3
            } else if *c == 'l' {
                4
            } else if *c == '0' {
                5
            } else if *c == '+' {
                6
            } else {
                7
            },
            CliError::Pattern(InvalidPattern::Malformed) => 8,
            CliError::PublicKey => 9,
            CliError::PrivateKey => 10,
        }
    }
}

/// What is shown for a fresh split key.
pub open spec fn split_key_report(private_part: Seq<char>, public_part: Seq<char>) -> Seq<char> {
    "Private Split Key (keep hidden)   | "@ + private_part + "\n"@
        + "Public Split Key (give this out)  | "@ + public_part + "\n"@
        + "generate other part with: ./monero-vanity --calculate-split-key "@ + public_part
        + " --pattern PATTERN_YOU_WANT"@
}

/// What is shown for an address with its two private keys.
pub open spec fn key_pair_report(address: Seq<char>, spend: Seq<char>, view: Seq<char>) -> Seq<
    char,
> {
    "Monero Address             | "@ + address + "\n"@ + "Private Spend Key          | "@ + spend
        + "\n"@ + "Private View Key           | "@ + view + "\n"@
        + "Recover with: ./monero-wallet-cli --generate-from-spend-key YOUR_WALLET_NAME"@
}

/// What is shown for a private part that was found for somebody else.
pub open spec fn fragment_report(part: Seq<char>) -> Seq<char> {
    "Calculated Split Key part  | "@ + part + "\n"@
        + "Join keys with: ./monero-vanity --join-split-key "@ + part
        + " PRIVATE_SPLIT_KEY_PART"@
}

/// Writes out a fresh split key: the private part to keep, the public part
/// to give out, and how the other side goes on.
pub fn write_split_key(private_part: &str, public_part: &str) -> (out: String)
    ensures
        out@ == split_key_report(private_part@, public_part@),
{
    let mut out = String::from_str("Private Split Key (keep hidden)   | ");
    out.append(private_part);
    out.append("\n");
    out.append("Public Split Key (give this out)  | ");
    out.append(public_part);
    out.append("\n");
    out.append("generate other part with: ./monero-vanity --calculate-split-key ");
    out.append(public_part);
    out.append(" --pattern PATTERN_YOU_WANT");
    out
}

/// Writes out an address with its private spend key and private view key.
pub fn write_key_pair(result: &FoundResult) -> (out: String)
    ensures
        out@ == key_pair_report(result.address@, result.spend_key@, result.view_key@),
{
    let mut out = String::from_str("Monero Address             | ");
    out.append(result.address.as_str());
    out.append("\n");
    out.append("Private Spend Key          | ");
    out.append(result.spend_key.as_str());
    out.append("\n");
    out.append("Private View Key           | ");
    out.append(result.view_key.as_str());
    out.append("\n");
    out.append("Recover with: ./monero-wallet-cli --generate-from-spend-key YOUR_WALLET_NAME");
    out
}

/// Writes out the private part that a search for somebody else found, and
/// how its owner joins it with their own.
pub fn write_fragment(part: &str) -> (out: String)
    ensures
        out@ == fragment_report(part@),
{
    let mut out = String::from_str("Calculated Split Key part  | ");
    out.append(part);
    out.append("\n");
    out.append("Join keys with: ./monero-vanity --join-split-key ");
    out.append(part);
    out.append(" PRIVATE_SPLIT_KEY_PART");
    out
}

impl Cli {
    /// Makes a fresh split key and writes it out.
    pub fn gen_private_split_key() -> (out: String)
        ensures
            exists|f: SplitKeyFragment|
                f.wf() && out@ == split_key_report(
                    hex_text(f.private.spec_bytes()),
                    hex_text(f.public@),
                ),
    {
        let (private_part, public_part) = calculate_part_split_key();
        let out = write_split_key(private_part.as_str(), public_part.as_str());
        proof {
            let f = choose|f: SplitKeyFragment|
                f.wf() && private_part@ == hex_text(f.private.spec_bytes()) && public_part@
                    == hex_text(f.public@);
            assert(f.wf() && out@ == split_key_report(
                hex_text(f.private.spec_bytes()),
                hex_text(f.public@),
            ));
        }
        out
    }

    /// Joins two private parts of a split key and writes out the address
    /// and the keys of the whole.
    pub fn join_split_key(a: &Scalar, b: &Scalar) -> (out: String)
        ensures
            exists|r: FoundResult, view: Scalar|
                view.wf() && is_result_for(
                    r,
                    base_multiple((a@ + b@) % group_order()),
                    (a@ + b@) % group_order(),
                    view,
                ) && out@ == key_pair_report(r.address@, r.spend_key@, r.view_key@),
    {
        let m = join_split_key(a, b);
        let out = write_key_pair(&m);
        proof {
            let view = choose|view: Scalar|
                view.wf() && is_result_for(
                    m,
                    base_multiple((a@ + b@) % group_order()),
                    (a@ + b@) % group_order(),
                    view,
                );
            assert(view.wf() && is_result_for(
                m,
                base_multiple((a@ + b@) % group_order()),
                (a@ + b@) % group_order(),
                view,
            ) && out@ == key_pair_report(m.address@, m.spend_key@, m.view_key@));
        }
        out
    }

    /// How the pattern is to be read.
    pub open spec fn kind(&self) -> PatternType {
        if self.first {
            PatternType::First
        } else {
            PatternType::Third
        }
    }

    /// The two private parts can be joined: there are two of them and both
    /// are private keys in writing.
    pub open spec fn can_join(keys: Seq<String>) -> bool {
        keys.len() >= 2 && is_private_key_text(keys[0]@) && is_private_key_text(keys[1]@)
    }

    /// What is wrong with the settings of a search, if anything: the pattern
    /// is looked at first, then the public split key.
    pub open spec fn search_fault(&self) -> Option<CliError> {
        match pattern_fault(
            self.pattern@,
            regex_compiles(pattern_source(self.pattern@, self.kind())),
        ) {
            Some(f) => Some(CliError::Pattern(f)),
            None => match self.calculate_split_key {
                Some(text) => if is_public_key_text(text@) {
                    None
                } else {
                    Some(CliError::PublicKey)
                },
                None => None,
            },
        }
    }

    /// Decides what the command line asks for.
    ///
    /// Generating a split key comes first and joining one second; neither
    /// looks at the other options. A search needs a pattern that holds, a
    /// public split key that is a point where one is given, and gets its
    /// thread count corrected rather than refused.
    pub fn handle_args(&self, limits: Threads) -> (out: Result<CliAction, CliError>)
        ensures
            self.gen_private_split_key ==> out matches Ok(CliAction::GenPrivateSplitKey),
            !self.gen_private_split_key ==> match self.join_split_key {
                Some(keys) => if Self::can_join(keys@) {
                    out matches Ok(CliAction::JoinSplitKey(a, b)) && a.wf() && b.wf()
                        && a.spec_bytes() == hex_bytes(keys@[0]@) && b.spec_bytes() == hex_bytes(
                        keys@[1]@,
                    )
                } else {
                    out matches Err(CliError::PrivateKey)
                },
                None => match self.search_fault() {
                    Some(e) => out matches Err(err) && err == e,
                    None => out matches Ok(CliAction::Search(state, notice, refresh)) && {
                        &&& refresh == self.refresh
                        &&& state.threads == corrected_threads(self.threads, limits).threads
                        &&& notice == corrected_threads(self.threads, limits).notice
                        &&& state.pattern matches Some(p) && p.wf() && p@ == pattern_source(
                            self.pattern@,
                            self.kind(),
                        )
                        &&& state.pattern_string@ == pattern_source(self.pattern@, self.kind())
                        &&& state.phase == RunPhase::Idle
                        &&& state.speed == 0
                        &&& state.history@ == Seq::<char>::empty()
                        &&& match self.calculate_split_key {
                            Some(text) => state.split_key matches Some(k) && k@ == hex_bytes(
                                text@,
                            ),
                            None => state.split_key is None,
                        }
                    },
                },
            },
    {
        if self.gen_private_split_key {
            return Ok(CliAction::GenPrivateSplitKey);
        }
        if let Some(keys) = &self.join_split_key {
            if keys.len() < 2 {
                return Err(CliError::PrivateKey);
            }
            let a = match parse_private_key(keys[0].as_str()) {
                Ok(a) => a,
                Err(_) => {
                    return Err(CliError::PrivateKey);
                },
            };
            let b = match parse_private_key(keys[1].as_str()) {
                Ok(b) => b,
                Err(_) => {
                    return Err(CliError::PrivateKey);
                },
            };
            return Ok(CliAction::JoinSplitKey(a, b));
        }
        let kind = if self.first {
            PatternType::First
        } else {
            PatternType::Third
        };
        let pattern = match Pattern::compile(self.pattern.as_str(), kind) {
            Ok(pattern) => pattern,
            Err(f) => {
                return Err(CliError::Pattern(f));
            },
        };
        let split_key = match &self.calculate_split_key {
            Some(text) => match parse_public_key(text.as_str()) {
                Ok(point) => Some(point),
                Err(_) => {
                    return Err(CliError::PublicKey);
                },
            },
            None => None,
        };
        let choice = limits.clamp(self.threads);
        let pattern_string = String::from_str(pattern.as_str());
        let state = State {
            threads: choice.threads,
            pattern: Some(pattern),
            pattern_string,
            phase: RunPhase::Idle,
            speed: 0,
            history: String::new(),
            split_key,
        };
        Ok(CliAction::Search(state, choice.notice, self.refresh))
    }
}

} // verus!
