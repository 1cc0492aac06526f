//! Receiver commands: the line-level command set, and its decoding into the
//! internal reconfiguration commands that the pipeline consumes.

use vstd::prelude::*;
use crate::parse::{is_i32_token, int_token_value, parse_i32, spec_tokens, split_tokens, str_eq};

verus! {

/// A filter selection for the bandwidth-limiting stages. The
/// `Bypass` variant is a true identity transform (bandwidth limiting disabled).
#[derive(Clone, Copy, Debug, PartialEq, Eq, Structural)]
pub enum FilterType {
    AM3K,
    AM6K,
    AM11K,
    AF3K,
    AF6K,
    AF11K,
    Bypass,
}

/// An automatic-gain-control time constant, fastest to slowest. The `Off`
/// variant disables gain control (all-zero smoothing coefficients).
#[derive(Clone, Copy, Debug, PartialEq, Eq, Structural)]
pub enum AGCType {
    AGC05,
    AGC15,
    AGC20,
    AGC30,
    AGC50,
    Off,
}

/// A command as entered on the command surface, after parsing.
#[derive(Debug, PartialEq)]
pub enum UiCommand {
    AM(i32),
    AGC(i32),
    AF(i32),
    RSSI(String),
    IFOUT(String),
    END,
}

/// A command as consumed by the pipeline orchestrator. `Nop` stands for
/// "no command pending"; the orchestrator leaves its state unchanged on it.
#[derive(Debug, PartialEq)]
pub enum InternalCommand {
    AM(FilterType),
    AGC(AGCType),
    Nop,
    AF(FilterType),
    RSSI(String),
    IFOUT(String),
    END,
}

/// The token lists that form a recognized command line: a keyword with an
/// integer argument, a keyword with a sink name, or `END` alone.
pub open spec fn spec_is_command(ts: Seq<Seq<char>>) -> bool {
    ||| (ts.len() == 2 && (ts[0] == "AM"@ || ts[0] == "AGC"@ || ts[0] == "AF"@) && is_i32_token(
        ts[1],
    ))
    ||| (ts.len() == 2 && (ts[0] == "RSSI"@ || ts[0] == "IFOUT"@))
    ||| (ts.len() == 1 && ts[0] == "END"@)
}

/// Relation between a parsed command and the token list it came from.
pub open spec fn command_matches(cmd: UiCommand, ts: Seq<Seq<char>>) -> bool {
    match cmd {
        UiCommand::AM(v) => ts.len() == 2 && ts[0] == "AM"@ && is_i32_token(ts[1]) && v as int
            == int_token_value(ts[1]),
        UiCommand::AGC(v) => ts.len() == 2 && ts[0] == "AGC"@ && is_i32_token(ts[1]) && v as int
            == int_token_value(ts[1]),
        UiCommand::AF(v) => ts.len() == 2 && ts[0] == "AF"@ && is_i32_token(ts[1]) && v as int
            == int_token_value(ts[1]),
        UiCommand::RSSI(name) => ts.len() == 2 && ts[0] == "RSSI"@ && name@ == ts[1],
        UiCommand::IFOUT(name) => ts.len() == 2 && ts[0] == "IFOUT"@ && name@ == ts[1],
        UiCommand::END => ts.len() == 1 && ts[0] == "END"@,
    }
}

impl UiCommand {
    /// Parses one command line: a recognized keyword with its argument
    /// yields the command, anything else is rejected.
    pub fn from_str(input: &str) -> (r: Option<UiCommand>)
        ensures
            match r {
                Some(cmd) => command_matches(cmd, spec_tokens(input@)),
                None => !spec_is_command(spec_tokens(input@)),
            },
    {
        proof {
            reveal_strlit("AM");
            reveal_strlit("AGC");
            reveal_strlit("AF");
            reveal_strlit("RSSI");
            reveal_strlit("IFOUT");
            reveal_strlit("END");
        }
        let tokens = split_tokens(input);
        let ghost ts = spec_tokens(input@);
        if tokens.len() == 2 {
            proof {
                assert(tokens[0]@ == ts[0]);
                assert(tokens[1]@ == ts[1]);
            }
            if str_eq(tokens[0].as_str(), "AM") {
                match parse_i32(tokens[1].as_str()) {
                    Some(v) => Some(UiCommand::AM(v)),
                    None => None,
                }
            } else if str_eq(tokens[0].as_str(), "AGC") {
                match parse_i32(tokens[1].as_str()) {
                    Some(v) => Some(UiCommand::AGC(v)),
                    None => None,
                }
            } else if str_eq(tokens[0].as_str(), "AF") {
                match parse_i32(tokens[1].as_str()) {
                    Some(v) => Some(UiCommand::AF(v)),
                    None => None,
                }
            } else if str_eq(tokens[0].as_str(), "RSSI") {
                Some(UiCommand::RSSI(tokens[1].clone()))
            } else if str_eq(tokens[0].as_str(), "IFOUT") {
                Some(UiCommand::IFOUT(tokens[1].clone()))
            } else {
                None
            }
        } else if tokens.len() == 1 {
            proof {
                assert(tokens[0]@ == ts[0]);
            }
            if str_eq(tokens[0].as_str(), "END") {
                Some(UiCommand::END)
            } else {
                None
            }
        } else {
            None
        }
    }
}

/// Bandwidth selected by an `AM <n>` command.
pub open spec fn am_filter_for(param: int) -> FilterType {
    if param <= 4 {
        FilterType::AM3K
    } else if param <= 8 {
        FilterType::AM6K
    } else if param <= 13 {
        FilterType::AM11K
    } else {
        FilterType::Bypass
    }
}

/// Time constant selected by an `AGC <n>` command.
pub open spec fn agc_for(param: int) -> AGCType {
    if param <= -1 {
        AGCType::Off
    } else if param == 0 {
        AGCType::AGC05
    } else if param == 1 {
        AGCType::AGC15
    } else if param == 2 {
        AGCType::AGC20
    } else if param == 3 {
        AGCType::AGC30
    } else {
        AGCType::AGC50
    }
}

/// Bandwidth selected by an `AF <n>` command. The audio stage has no
/// disabled setting: everything from 9 up selects the widest filter.
pub open spec fn af_filter_for(param: int) -> FilterType {
    if param <= 4 {
        FilterType::AF3K
    } else if param <= 8 {
        FilterType::AF6K
    } else {
        FilterType::AF11K
    }
}

/// Exact relation between a parsed command and its decoded internal form.
pub open spec fn decodes_to(comm: UiCommand, r: InternalCommand) -> bool {
    match (comm, r) {
        (UiCommand::AM(p), InternalCommand::AM(f)) => f == am_filter_for(p as int),
        (UiCommand::AGC(p), InternalCommand::AGC(a)) => a == agc_for(p as int),
        (UiCommand::AF(p), InternalCommand::AF(f)) => f == af_filter_for(p as int),
        (UiCommand::RSSI(n), InternalCommand::RSSI(m)) => m@ == n@,
        (UiCommand::IFOUT(n), InternalCommand::IFOUT(m)) => m@ == n@,
        (UiCommand::END, InternalCommand::END) => true,
        _ => false,
    }
}

/// Maps a parsed command onto the internal command applied by the
/// orchestrator, folding the numeric argument into the named setting.
pub fn command_decode(comm: UiCommand) -> (r: InternalCommand)
    ensures
        decodes_to(comm, r),
{
    match comm {
        UiCommand::AM(param) => {
            InternalCommand::AM(
                if param <= 4 {
                    FilterType::AM3K
                } else if param <= 8 {
                    FilterType::AM6K
                } else if param <= 13 {
                    FilterType::AM11K
                } else {
                    FilterType::Bypass
                },
            )
        },
        UiCommand::AGC(param) => {
            InternalCommand::AGC(
                if param <= -1 {
                    AGCType::Off
                } else if param == 0 {
                    AGCType::AGC05
                } else if param == 1 {
                    AGCType::AGC15
                } else if param == 2 {
                    AGCType::AGC20
                } else if param == 3 {
                    AGCType::AGC30
                } else {
                    AGCType::AGC50
                },
            )
        },
        UiCommand::AF(param) => {
            InternalCommand::AF(
                if param <= 4 {
                    FilterType::AF3K
                } else if param <= 8 {
                    FilterType::AF6K
                } else {
                    FilterType::AF11K
                },
            )
        },
        UiCommand::RSSI(param) => InternalCommand::RSSI(param),
        UiCommand::IFOUT(param) => InternalCommand::IFOUT(param),
        UiCommand::END => InternalCommand::END,
    }
}

/// Relation between a command line and the internal command it produces:
/// parsing composed with decoding.
pub open spec fn line_decodes_to(s: Seq<char>, ic: InternalCommand) -> bool {
    let ts = spec_tokens(s);
    match ic {
        InternalCommand::AM(f) => ts.len() == 2 && ts[0] == "AM"@ && is_i32_token(ts[1]) && f
            == am_filter_for(int_token_value(ts[1])),
        InternalCommand::AGC(a) => ts.len() == 2 && ts[0] == "AGC"@ && is_i32_token(ts[1]) && a
            == agc_for(int_token_value(ts[1])),
        InternalCommand::AF(f) => ts.len() == 2 && ts[0] == "AF"@ && is_i32_token(ts[1]) && f
            == af_filter_for(int_token_value(ts[1])),
        InternalCommand::RSSI(m) => ts.len() == 2 && ts[0] == "RSSI"@ && m@ == ts[1],
        InternalCommand::IFOUT(m) => ts.len() == 2 && ts[0] == "IFOUT"@ && m@ == ts[1],
        InternalCommand::END => ts.len() == 1 && ts[0] == "END"@,
        InternalCommand::Nop => false,
    }
}

/// Parses and decodes one command line; a line that is not a recognized
/// command is rejected.
pub fn decode_line(line: &str) -> (r: Option<InternalCommand>)
    ensures
        match r {
            Some(ic) => line_decodes_to(line@, ic),
            None => !spec_is_command(spec_tokens(line@)),
        },
{
    match UiCommand::from_str(line) {
        Some(command) => Some(command_decode(command)),
        None => None,
    }
}

} // verus!
