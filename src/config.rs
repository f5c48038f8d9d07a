//! Limits that a decoder enforces against malformed or hostile input.

use vstd::prelude::*;
use crate::errors::{
    container_size_message, fails_with, fails_with_message, is_protocol_error,
    message_budget_message, message_with_number, message_with_two_numbers, protocol_error, Error,
    ProtocolError, ProtocolErrorKind,
};
use vstd::string::StringExecFns;

verus! {

/// Default bound on the bytes of one message: 100 MiB.
pub const DEFAULT_MAX_MESSAGE_SIZE: usize = 104857600;

/// Default bound on the bytes of one frame: 16 MB.
pub const DEFAULT_MAX_FRAME_SIZE: usize = 16384000;

/// Default bound on the depth of nested structs.
pub const DEFAULT_MAX_RECURSION_DEPTH: usize = 64;

/// Four independent optional caps (and a frame size for framed channels).
/// `None` means unlimited. The defaults bound the message size, the frame
/// size and the recursion depth, and leave container and string sizes open.
#[derive(Clone, Copy, Debug, PartialEq, Eq)]
pub struct TConfiguration {
    max_message_size: Option<usize>,
    max_frame_size: Option<usize>,
    max_container_size: Option<usize>,
    max_string_size: Option<usize>,
    max_recursion_depth: Option<usize>,
}

impl TConfiguration {
    pub closed spec fn message_limit(&self) -> Option<usize> {
        self.max_message_size
    }

    pub closed spec fn frame_limit(&self) -> Option<usize> {
        self.max_frame_size
    }

    pub closed spec fn container_limit(&self) -> Option<usize> {
        self.max_container_size
    }

    pub closed spec fn string_limit(&self) -> Option<usize> {
        self.max_string_size
    }

    pub closed spec fn depth_limit(&self) -> Option<usize> {
        self.max_recursion_depth
    }

    pub fn max_message_size(&self) -> (r: Option<usize>)
        ensures
            r == self.message_limit(),
    {
        self.max_message_size
    }

    pub fn max_frame_size(&self) -> (r: Option<usize>)
        ensures
            r == self.frame_limit(),
    {
        self.max_frame_size
    }

    pub fn max_container_size(&self) -> (r: Option<usize>)
        ensures
            r == self.container_limit(),
    {
        self.max_container_size
    }

    pub fn max_string_size(&self) -> (r: Option<usize>)
        ensures
            r == self.string_limit(),
    {
        self.max_string_size
    }

    pub fn max_recursion_depth(&self) -> (r: Option<usize>)
        ensures
            r == self.depth_limit(),
    {
        self.max_recursion_depth
    }

    /// The preset that disables every limit.
    pub fn no_limits() -> (r: TConfiguration)
        ensures
            r.message_limit() is None,
            r.frame_limit() is None,
            r.container_limit() is None,
            r.string_limit() is None,
            r.depth_limit() is None,
    {
        TConfiguration {
            max_message_size: None,
            max_frame_size: None,
            max_container_size: None,
            max_string_size: None,
            max_recursion_depth: None,
        }
    }

    /// A builder that starts from the defaults.
    pub fn builder() -> (r: TConfigurationBuilder)
        ensures
            r.config.is_default(),
    {
        TConfigurationBuilder { config: TConfiguration::default() }
    }

    /// Whether every cap holds its default.
    pub open spec fn is_default(&self) -> bool {
        &&& self.message_limit() == Some(DEFAULT_MAX_MESSAGE_SIZE)
        &&& self.frame_limit() == Some(DEFAULT_MAX_FRAME_SIZE)
        &&& self.container_limit() is None
        &&& self.string_limit() is None
        &&& self.depth_limit() == Some(DEFAULT_MAX_RECURSION_DEPTH)
    }
}

impl Default for TConfiguration {
    fn default() -> (r: TConfiguration)
        ensures
            r.is_default(),
    {
        TConfiguration {
            max_message_size: Some(DEFAULT_MAX_MESSAGE_SIZE),
            max_frame_size: Some(DEFAULT_MAX_FRAME_SIZE),
            max_container_size: None,
            max_string_size: None,
            max_recursion_depth: Some(DEFAULT_MAX_RECURSION_DEPTH),
        }
    }
}

/// Sets the caps of a `TConfiguration` one by one.
pub struct TConfigurationBuilder {
    pub config: TConfiguration,
}

/// A cap is a positive number of bytes, elements or levels, or unlimited.
pub open spec fn valid_limit(l: Option<usize>) -> bool {
    l matches Some(n) ==> n > 0
}

impl TConfigurationBuilder {
    pub fn max_message_size(self, limit: Option<usize>) -> (r: TConfigurationBuilder)
        ensures
            r.config.message_limit() == limit,
            r.config.frame_limit() == self.config.frame_limit(),
            r.config.container_limit() == self.config.container_limit(),
            r.config.string_limit() == self.config.string_limit(),
            r.config.depth_limit() == self.config.depth_limit(),
    {
        TConfigurationBuilder { config: TConfiguration { max_message_size: limit, ..self.config } }
    }

    pub fn max_frame_size(self, limit: Option<usize>) -> (r: TConfigurationBuilder)
        ensures
            r.config.message_limit() == self.config.message_limit(),
            r.config.frame_limit() == limit,
            r.config.container_limit() == self.config.container_limit(),
            r.config.string_limit() == self.config.string_limit(),
            r.config.depth_limit() == self.config.depth_limit(),
    {
        TConfigurationBuilder { config: TConfiguration { max_frame_size: limit, ..self.config } }
    }

    pub fn max_container_size(self, limit: Option<usize>) -> (r: TConfigurationBuilder)
        ensures
            r.config.message_limit() == self.config.message_limit(),
            r.config.frame_limit() == self.config.frame_limit(),
            r.config.container_limit() == limit,
            r.config.string_limit() == self.config.string_limit(),
            r.config.depth_limit() == self.config.depth_limit(),
    {
        TConfigurationBuilder {
            config: TConfiguration { max_container_size: limit, ..self.config },
        }
    }

    pub fn max_string_size(self, limit: Option<usize>) -> (r: TConfigurationBuilder)
        ensures
            r.config.message_limit() == self.config.message_limit(),
            r.config.frame_limit() == self.config.frame_limit(),
            r.config.container_limit() == self.config.container_limit(),
            r.config.string_limit() == limit,
            r.config.depth_limit() == self.config.depth_limit(),
    {
        TConfigurationBuilder { config: TConfiguration { max_string_size: limit, ..self.config } }
    }

    pub fn max_recursion_depth(self, limit: Option<usize>) -> (r: TConfigurationBuilder)
        ensures
            r.config.message_limit() == self.config.message_limit(),
            r.config.frame_limit() == self.config.frame_limit(),
            r.config.container_limit() == self.config.container_limit(),
            r.config.string_limit() == self.config.string_limit(),
            r.config.depth_limit() == limit,
    {
        TConfigurationBuilder {
            config: TConfiguration { max_recursion_depth: limit, ..self.config },
        }
    }

    /// The configuration, unless a cap is zero.
    pub fn build(self) -> (r: Result<TConfiguration, Error>)
        ensures
            r is Ok <==> {
                &&& valid_limit(self.config.message_limit())
                &&& valid_limit(self.config.frame_limit())
                &&& valid_limit(self.config.container_limit())
                &&& valid_limit(self.config.string_limit())
                &&& valid_limit(self.config.depth_limit())
            },
            r matches Ok(c) ==> c == self.config,
            r matches Err(e) ==> is_protocol_error(e, ProtocolErrorKind::InvalidData),
    {
        let c = self.config;
        if c.max_message_size == Some(0usize) || c.max_frame_size == Some(0usize)
            || c.max_container_size == Some(0usize) || c.max_string_size == Some(0usize)
            || c.max_recursion_depth == Some(0usize) {
            return Err(protocol_error(ProtocolErrorKind::InvalidData, "a limit must be positive"));
        }
        Ok(c)
    }
}

/// Whether a container of `count` elements of at least `elem_bytes` bytes each
/// fits the caps of `config`.
pub open spec fn container_fits(config: TConfiguration, count: int, elem_bytes: int) -> bool {
    &&& count >= 0
    &&& config.container_limit() matches Some(c) ==> count <= c
    &&& config.message_limit() matches Some(m) ==> count * elem_bytes <= m
}

/// The text of the size error for a container of `count` elements of at least
/// `elem_bytes` bytes each that does not fit the caps of `config`.
pub open spec fn container_error_message(config: TConfiguration, count: int, elem_bytes: int) -> Seq<
    char,
> {
    if config.container_limit() matches Some(cap) && count > cap {
        container_size_message(count as nat, config.container_limit()->0 as nat)
    } else {
        message_budget_message((count * elem_bytes) as nat, config.message_limit()->0 as nat)
    }
}

/// Rejects a negative count, a count above the container cap, and a container
/// whose smallest encoding would not fit the message budget.
pub fn check_container_size(config: &TConfiguration, count: i32, elem_bytes: usize) -> (r:
    Result<(), Error>)
    ensures
        r is Ok <==> container_fits(*config, count as int, elem_bytes as int),
        count < 0 ==> fails_with(r, ProtocolErrorKind::NegativeSize),
        count >= 0 && !container_fits(*config, count as int, elem_bytes as int) ==> fails_with_message(
            r,
            ProtocolErrorKind::SizeLimit,
            container_error_message(*config, count as int, elem_bytes as int),
        ),
{
    if count < 0 {
        let magnitude: i64 = 0i64 - (count as i64);
        let m = message_with_number("Negative container size: -", magnitude as u128, "");
        return Err(Error::Protocol(ProtocolError::new(ProtocolErrorKind::NegativeSize, m)));
    }
    if let Some(cap) = config.max_container_size() {
        if count as usize > cap {
            let m = message_with_two_numbers(
                "Container size ",
                count as u128,
                " exceeds maximum allowed size of ",
                cap as u128,
            );
            return Err(Error::Protocol(ProtocolError::new(ProtocolErrorKind::SizeLimit, m)));
        }
    }
    if let Some(budget) = config.max_message_size() {
        let c = count as u128;
        let e = elem_bytes as u128;
        assert(c * e <= 0xFFFF_FFFF * 0xFFFF_FFFF_FFFF_FFFF) by (nonlinear_arith)
            requires
                c <= 0xFFFF_FFFF,
                e <= 0xFFFF_FFFF_FFFF_FFFF,
        ;
        let needed: u128 = c * e;
        if needed > budget as u128 {
            let m = message_with_two_numbers(
                "Container would require ",
                needed,
                " bytes, exceeding message size limit of ",
                budget as u128,
            );
            return Err(Error::Protocol(ProtocolError::new(ProtocolErrorKind::SizeLimit, m)));
        }
    }
    Ok(())
}

} // verus!
