//! Where the payloads go: which configured text is used, and which endpoint
//! it stands for.
//!
//! An explicit destination wins over the one from the environment. The chosen
//! text is either a socket address written out in full, which resolves to
//! itself, or a host name and a port. The addresses of a host name come from the
//! system resolver: the caller asks it and hands the answer in as a [`Lookup`].
//! The first address that the resolver gave is taken, with the port of the text.

use vstd::prelude::*;
use vstd::slice::slice_subrange;
use vstd::string::*;
use vstd::utf8::*;

use crate::address::fields::find_last;
use crate::address::numeral::{is_decimal, is_decimal_digit};
use crate::address::socket::{
    host_port, parse_host_port, parse_socket_literal, socket_literal, v4_socket,
};
use crate::address::{CLOSE_BRACKET, COLON};
use crate::endpoint::{Destination, Endpoint};

verus! {

/// Why a text could not be resolved to an endpoint.
#[derive(Clone, Copy, Debug, PartialEq, Eq, Structural)]
pub enum ResolutionError {
    /// The text is empty.
    EmptyAddress,
    /// The text holds no `:`, so it names no port.
    MissingPort,
    /// What follows the last `:` is no port: it is no decimal numeral, or
    /// greater than 65535.
    InvalidPort,
    /// The resolver could not resolve the host name.
    LookupFailed,
    /// The resolver knows the host name and gave no address for it.
    NoAddresses,
}

/// What a text asks for.
#[derive(Clone, Debug, PartialEq, Eq)]
pub enum Target {
    /// The text is a socket address written out in full: this endpoint.
    Endpoint(Destination),
    /// The text names a host, to be looked up, and a port.
    Host { name: String, port: u16 },
}

/// The mathematical value of a [`Target`]. A host name is the bytes of its
/// UTF-8 encoding.
pub enum TargetModel {
    Endpoint(Endpoint),
    Host { name: Seq<u8>, port: u16 },
}

impl View for Target {
    type V = TargetModel;

    open spec fn view(&self) -> TargetModel {
        match self {
            Target::Endpoint(destination) => TargetModel::Endpoint(destination@),
            Target::Host { name, port } => TargetModel::Host {
                name: encode_utf8(name@),
                port: *port,
            },
        }
    }
}

/// What the system resolver answered for a host name.
#[derive(Clone, Debug, PartialEq, Eq)]
pub enum Lookup {
    /// The name could not be resolved.
    Failed,
    /// The addresses of the name, in the order in which the resolver gave them.
    Found(Vec<Destination>),
}

/// The mathematical value of a [`Lookup`].
pub enum LookupModel {
    Failed,
    Found(Seq<Endpoint>),
}

impl LookupModel {
    /// Whether the resolver gave at least one address.
    pub open spec fn has_candidates(self) -> bool {
        match self {
            LookupModel::Failed => false,
            LookupModel::Found(candidates) => candidates.len() > 0,
        }
    }
}

impl View for Lookup {
    type V = LookupModel;

    open spec fn view(&self) -> LookupModel {
        match self {
            Lookup::Failed => LookupModel::Failed,
            Lookup::Found(candidates) => LookupModel::Found(
                Seq::new(candidates@.len(), |i: int| candidates@[i]@),
            ),
        }
    }
}

/// The mathematical value of the outcome of a resolution.
pub open spec fn outcome_view(outcome: Result<Destination, ResolutionError>) -> Result<
    Endpoint,
    ResolutionError,
> {
    match outcome {
        Ok(destination) => Ok(destination@),
        Err(error) => Err(error),
    }
}

/// The bytes of an optional text.
pub open spec fn bytes_of(text: Option<&str>) -> Option<Seq<u8>> {
    match text {
        Some(text) => Some(text.spec_bytes()),
        None => None,
    }
}

/// What follows the last `:` of `s`: the text of the port. All of `s` where it
/// holds no `:`.
pub open spec fn port_text(s: Seq<u8>) -> Seq<u8> {
    match s.index_of_last(COLON) {
        Some(colon) => s.subrange(colon + 1, s.len() as int),
        None => s,
    }
}

/// What precedes the last `:` of `s`: the text of the host. All of `s` where it
/// holds no `:`.
pub open spec fn host_text(s: Seq<u8>) -> Seq<u8> {
    match s.index_of_last(COLON) {
        Some(colon) => s.subrange(0, colon),
        None => s,
    }
}

/// What the text `s` asks for.
///
/// An empty text is refused. A socket address written out in full asks for the
/// endpoint it denotes. Any other text is cut at its last `:` into a host name
/// and a port; it is refused where it holds no `:` or where what follows the
/// last `:` is no port.
pub open spec fn target_of(s: Seq<u8>) -> Result<TargetModel, ResolutionError> {
    if s.len() == 0 {
        Err(ResolutionError::EmptyAddress)
    } else if socket_literal(s) is Some {
        Ok(TargetModel::Endpoint(socket_literal(s).unwrap()))
    } else if !s.contains(COLON) {
        Err(ResolutionError::MissingPort)
    } else {
        match host_port(port_text(s)) {
            Some(port) => Ok(TargetModel::Host { name: host_text(s), port }),
            None => Err(ResolutionError::InvalidPort),
        }
    }
}

/// The endpoint that `target` resolves to, given what the resolver answered.
///
/// An endpoint resolves to itself and the answer is not looked at. A host
/// resolves to the first address of the answer, with the port of the target; it
/// fails where the lookup failed or gave no address.
pub open spec fn completed(target: TargetModel, lookup: LookupModel) -> Result<
    Endpoint,
    ResolutionError,
> {
    match target {
        TargetModel::Endpoint(endpoint) => Ok(endpoint),
        TargetModel::Host { port, .. } => match lookup {
            LookupModel::Failed => Err(ResolutionError::LookupFailed),
            LookupModel::Found(candidates) => if candidates.len() == 0 {
                Err(ResolutionError::NoAddresses)
            } else {
                Ok(candidates[0].with_port(port))
            },
        },
    }
}

/// The endpoint that the text `s` resolves to, given what the resolver
/// answered for its host name.
pub open spec fn resolution(s: Seq<u8>, lookup: LookupModel) -> Result<Endpoint, ResolutionError> {
    match target_of(s) {
        Ok(target) => completed(target, lookup),
        Err(error) => Err(error),
    }
}

/// The text that is resolved: the explicit one where there is one, else the
/// one from the environment where that is not empty, else none.
pub open spec fn chosen_source(explicit: Option<Seq<u8>>, env_fallback: Option<Seq<u8>>) -> Option<
    Seq<u8>,
> {
    match explicit {
        Some(text) => Some(text),
        None => match env_fallback {
            Some(text) => if text.len() > 0 {
                Some(text)
            } else {
                None
            },
            None => None,
        },
    }
}

impl ResolutionError {
    /// The words that say what went wrong, to which the text is appended.
    pub open spec fn summary(self) -> Seq<char> {
        match self {
            ResolutionError::EmptyAddress => "The address is empty: "@,
            ResolutionError::MissingPort => "The address names no port: "@,
            ResolutionError::InvalidPort => "The address names an invalid port: "@,
            ResolutionError::LookupFailed => "Could not resolve the address: "@,
            ResolutionError::NoAddresses => "No addresses found for "@,
        }
    }

    /// A sentence for the user: what went wrong, and with which text.
    pub fn describe(&self, addr_str: &str) -> (message: String)
        ensures
            message@ == self.summary() + addr_str@,
    {
        let summary: &str = match self {
            ResolutionError::EmptyAddress => "The address is empty: ",
            ResolutionError::MissingPort => "The address names no port: ",
            ResolutionError::InvalidPort => "The address names an invalid port: ",
            ResolutionError::LookupFailed => "Could not resolve the address: ",
            ResolutionError::NoAddresses => "No addresses found for ",
        };
        let mut message = String::from_str(summary);
        message.append(addr_str);
        message
    }
}

impl Target {
    /// Resolves the target with the resolver's answer.
    pub fn complete(&self, lookup: &Lookup) -> (outcome: Result<Destination, ResolutionError>)
        ensures
            outcome_view(outcome) == completed(self@, lookup@),
    {
        match self {
            Target::Endpoint(destination) => Ok(*destination),
            Target::Host { port, .. } => match lookup {
                Lookup::Failed => Err(ResolutionError::LookupFailed),
                Lookup::Found(candidates) => {
                    if candidates.len() == 0 {
                        Err(ResolutionError::NoAddresses)
                    } else {
                        Ok(candidates[0].with_port(*port))
                    }
                },
            },
        }
    }
}

/// Reads `addr_str` and says what it asks for, without resolving anything.
pub fn parse_target(addr_str: &str) -> (target: Result<Target, ResolutionError>)
    ensures
        match target {
            Ok(target) => target_of(addr_str.spec_bytes()) == Ok::<TargetModel, ResolutionError>(
                target@,
            ),
            Err(error) => target_of(addr_str.spec_bytes()) == Err::<TargetModel, ResolutionError>(
                error,
            ),
        },
{
    let text = addr_str.as_bytes();
    if text.len() == 0 {
        return Err(ResolutionError::EmptyAddress);
    }
    match parse_socket_literal(text) {
        Some(destination) => {
            return Ok(Target::Endpoint(destination));
        },
        None => {},
    }
    let colon: usize = match find_last(text, COLON) {
        Some(colon) => colon,
        None => {
            return Err(ResolutionError::MissingPort);
        },
    };
    let port: u16 = match parse_host_port(slice_subrange(text, colon + 1, text.len())) {
        Some(port) => port,
        None => {
            return Err(ResolutionError::InvalidPort);
        },
    };
    proof {
        encode_utf8_valid_utf8(addr_str@);
        is_char_boundary_iff_not_is_continuation_byte(addr_str.spec_bytes(), colon as int);
    }
    let (host, _) = addr_str.split_at(colon);
    Ok(Target::Host { name: host.to_owned(), port })
}

/// Resolves `addr_str` to an endpoint. `lookup` is what the resolver answered
/// for the host that `addr_str` names; it is not looked at where `addr_str` is
/// refused or is a socket address written out in full.
pub fn parse_to_socket_addr(addr_str: &str, lookup: &Lookup) -> (outcome: Result<
    Destination,
    ResolutionError,
>)
    ensures
        outcome_view(outcome) == resolution(addr_str.spec_bytes(), lookup@),
{
    match parse_target(addr_str) {
        Ok(target) => target.complete(lookup),
        Err(error) => Err(error),
    }
}

/// Picks the text to resolve: `explicit` where it is given, else `env_fallback`
/// where that is given and not empty.
pub fn select_source<'a>(explicit: Option<&'a str>, env_fallback: Option<&'a str>) -> (source:
    Option<&'a str>)
    ensures
        bytes_of(source) == chosen_source(bytes_of(explicit), bytes_of(env_fallback)),
        source matches Some(text) ==> explicit == Some(text) || (explicit is None && env_fallback
            == Some(text)),
{
    match explicit {
        Some(text) => Some(text),
        None => match env_fallback {
            Some(text) => {
                if text.as_bytes().len() > 0 {
                    Some(text)
                } else {
                    None
                }
            },
            None => None,
        },
    }
}

/// Finds the destination of the stream.
///
/// Nothing is configured where there is neither an explicit text nor a
/// non-empty one from the environment: the result is `None`. Otherwise the
/// result is what the chosen text resolves to, be it an endpoint or an error.
/// `lookup` is what the resolver answered for the host that the chosen text
/// names.
pub fn find_dest(explicit: Option<&str>, env_fallback: Option<&str>, lookup: &Lookup) -> (found:
    Option<Result<Destination, ResolutionError>>)
    ensures
        match found {
            Some(outcome) => chosen_source(bytes_of(explicit), bytes_of(env_fallback)) matches Some(
                text,
            ) && outcome_view(outcome) == resolution(text, lookup@),
            None => chosen_source(bytes_of(explicit), bytes_of(env_fallback)) is None,
        },
{
    match select_source(explicit, env_fallback) {
        Some(text) => Some(parse_to_socket_addr(text, lookup)),
        None => None,
    }
}

/// In a socket address written out in full, the `:` in front of the port is the
/// last `:` of the text, and the port of the endpoint is the number written
/// behind it.
pub proof fn lemma_literal_port_is_port_of_text(s: Seq<u8>)
    requires
        socket_literal(s) is Some,
    ensures
        s.len() > 0,
        s.contains(COLON),
        host_port(port_text(s)) == Some(socket_literal(s).unwrap().port()),
{
    s.index_of_last_ensures(COLON);
    if v4_socket(s) is Some {
        s.index_of_first_ensures(COLON);
        let colon = s.index_of_first(COLON).unwrap();
        let last = s.index_of_last(COLON).unwrap();
        let digits = s.subrange(colon + 1, s.len() as int);
        assert(is_decimal(digits));
        if last > colon {
            assert(digits[last - colon - 1] == s[last]);
            assert(is_decimal_digit(digits[last - colon - 1]));
        }
        assert(last == colon);
        assert(is_decimal_digit(digits[0]));
    } else {
        s.index_of_first_ensures(CLOSE_BRACKET);
        let close = s.index_of_first(CLOSE_BRACKET).unwrap();
        let rest = s.subrange(close + 1, s.len() as int);
        let digits = rest.drop_first();
        assert(rest[0] == s[close + 1]);
        assert(is_decimal(digits));
        let last = s.index_of_last(COLON).unwrap();
        if last > close + 1 {
            assert(digits[last - close - 2] == s[last]);
            assert(is_decimal_digit(digits[last - close - 2]));
        }
        assert(last == close + 1);
        assert(digits =~= s.subrange(last + 1, s.len() as int));
        assert(is_decimal_digit(digits[0]));
    }
}

/// A text resolves exactly where it is a socket address written out in full,
/// or where it is not empty, a port follows its last `:`, and the resolver gave
/// at least one address for the host in front of it.
pub proof fn lemma_resolution_succeeds_iff(s: Seq<u8>, lookup: LookupModel)
    ensures
        resolution(s, lookup) is Ok <==> socket_literal(s) is Some || (s.len() > 0 && s.contains(
            COLON,
        ) && host_port(port_text(s)) is Some && lookup.has_candidates()),
{
    if socket_literal(s) is Some {
        lemma_literal_port_is_port_of_text(s);
    }
}

/// The endpoint that a text resolves to has the port that is written behind
/// the last `:` of the text, be the text a socket address written out in full
/// or a host name with a port.
pub proof fn lemma_resolved_port_is_port_of_text(s: Seq<u8>, lookup: LookupModel)
    requires
        resolution(s, lookup) is Ok,
    ensures
        s.contains(COLON),
        host_port(port_text(s)) == Some(resolution(s, lookup)->Ok_0.port()),
{
    if socket_literal(s) is Some {
        lemma_literal_port_is_port_of_text(s);
    }
}

/// A text that is empty, holds no `:`, or has no port behind its last `:` (no
/// decimal numeral, or one greater than 65535) does not resolve, whatever the
/// resolver answered.
pub proof fn lemma_text_without_port_is_refused(s: Seq<u8>, lookup: LookupModel)
    requires
        s.len() == 0 || !s.contains(COLON) || host_port(port_text(s)) is None,
    ensures
        resolution(s, lookup) is Err,
{
    if socket_literal(s) is Some {
        lemma_literal_port_is_port_of_text(s);
    }
}

/// An explicit text is the one that is resolved, whatever the environment
/// holds: the environment is consulted only where no explicit text is given.
pub proof fn lemma_explicit_source_wins(explicit: Seq<u8>, env_fallback: Option<Seq<u8>>)
    ensures
        chosen_source(Some(explicit), env_fallback) == Some(explicit),
        chosen_source(Some(explicit), env_fallback) == chosen_source(
            Some(explicit),
            None::<Seq<u8>>,
        ),
{
}

} // verus!
