//! The configuration of a chaincode server.

use vstd::prelude::*;

use crate::error::{Error, ErrorView, Result};
use crate::text;

verus! {

/// Default limit on the size of a message, the peer's own: 100 MiB.
pub const DEFAULT_MAX_MESSAGE_SIZE: usize = 104_857_600;

/// Where a server listens unless it is told otherwise.
pub const DEFAULT_ADDRESS: &'static str = "0.0.0.0:7052";

/// A chaincode server: the package id under which it registers, the address that
/// it binds, and the limit on the size of a message.
pub struct Server<A> {
    chaincode_id: String,
    address: A,
    max_message_size: usize,
}

/// What a [`Server`] is configured to.
pub struct ServerView<A> {
    pub chaincode_id: Seq<char>,
    pub address: A,
    pub max_message_size: usize,
}

impl<A> View for Server<A> {
    type V = ServerView<A>;

    closed spec fn view(&self) -> ServerView<A> {
        ServerView {
            chaincode_id: self.chaincode_id@,
            address: self.address,
            max_message_size: self.max_message_size,
        }
    }
}

/// The package id and the address that the environment gives: in each case the
/// first variable that is set counts. The id must be given.
pub open spec fn environment(
    chaincode_id: Option<Seq<char>>,
    core_chaincode_id: Option<Seq<char>>,
    server_address: Option<Seq<char>>,
    core_address: Option<Seq<char>>,
) -> std::result::Result<(Seq<char>, Seq<char>), ErrorView> {
    let address = match server_address {
        Some(given) => given,
        None => match core_address {
            Some(given) => given,
            None => DEFAULT_ADDRESS@,
        },
    };
    match chaincode_id {
        Some(id) => Ok((id, address)),
        None => match core_chaincode_id {
            Some(id) => Ok((id, address)),
            None => Err(
                ErrorView::Config("CHAINCODE_ID (or CORE_CHAINCODE_ID) is not set"@),
            ),
        },
    }
}

/// Reads the configuration from the values of the variables `CHAINCODE_ID`,
/// `CORE_CHAINCODE_ID`, `CHAINCODE_SERVER_ADDRESS` and `CORE_CHAINCODE_ADDRESS`.
pub fn settings(
    chaincode_id: Option<String>,
    core_chaincode_id: Option<String>,
    server_address: Option<String>,
    core_address: Option<String>,
) -> (r: Result<(String, String)>)
    ensures
        match environment(
            text::optional(chaincode_id),
            text::optional(core_chaincode_id),
            text::optional(server_address),
            text::optional(core_address),
        ) {
            Ok((id, address)) => r matches Ok((i, a)) && i@ == id && a@ == address,
            Err(e) => r matches Err(error) && error@ == e,
        },
{
    let id = match chaincode_id {
        Some(id) => id,
        None => match core_chaincode_id {
            Some(id) => id,
            None => return Err(
                Error::Config("CHAINCODE_ID (or CORE_CHAINCODE_ID) is not set".to_owned()),
            ),
        },
    };
    let address = match server_address {
        Some(given) => given,
        None => match core_address {
            Some(given) => given,
            None => DEFAULT_ADDRESS.to_owned(),
        },
    };
    Ok((id, address))
}

/// What an address resolved to, or why it did not.
pub open spec fn resolution<A>(
    resolved: std::result::Result<Vec<A>, String>,
) -> std::result::Result<Seq<A>, Seq<char>> {
    match resolved {
        Ok(addresses) => Ok(addresses@),
        Err(fault) => Err(fault@),
    }
}

/// What a server is configured to, given what its address resolved to.
pub open spec fn configured<A>(
    chaincode_id: Seq<char>,
    address: Seq<char>,
    resolved: std::result::Result<Seq<A>, Seq<char>>,
) -> std::result::Result<ServerView<A>, ErrorView> {
    if chaincode_id.len() == 0 {
        Err(ErrorView::Config("chaincode id must not be empty"@))
    } else {
        match resolved {
            Err(fault) => Err(
                ErrorView::Config("invalid address "@ + text::debug_form(address) + ": "@ + fault),
            ),
            Ok(addresses) => if addresses.len() == 0 {
                Err(
                    ErrorView::Config(
                        "address "@ + text::debug_form(address) + " resolved to nothing"@,
                    ),
                )
            } else {
                Ok(
                    ServerView {
                        chaincode_id,
                        address: addresses[0],
                        max_message_size: DEFAULT_MAX_MESSAGE_SIZE,
                    },
                )
            },
        }
    }
}

/// Fails on an empty package id, which is not worth the resolution of an address.
pub fn require_chaincode_id(chaincode_id: &str) -> (r: Result<()>)
    ensures
        if chaincode_id@.len() == 0 {
            r matches Err(e) && e@ == ErrorView::Config("chaincode id must not be empty"@)
        } else {
            r is Ok
        },
{
    if chaincode_id.is_empty() {
        return Err(Error::Config("chaincode id must not be empty".to_owned()));
    }
    Ok(())
}

impl<A> Server<A> {
    /// A server as the environment says, given what the address in its [`settings`]
    /// resolved to or why it did not.
    pub fn from_env(
        chaincode_id: Option<String>,
        core_chaincode_id: Option<String>,
        server_address: Option<String>,
        core_address: Option<String>,
        resolved: std::result::Result<Vec<A>, String>,
    ) -> (r: Result<Server<A>>)
        ensures
            match environment(
                text::optional(chaincode_id),
                text::optional(core_chaincode_id),
                text::optional(server_address),
                text::optional(core_address),
            ) {
                Err(e) => r matches Err(error) && error@ == e,
                Ok((id, address)) => match configured(id, address, resolution(resolved)) {
                    Ok(view) => r matches Ok(server) && server@ == view,
                    Err(e) => r matches Err(error) && error@ == e,
                },
            },
    {
        match settings(chaincode_id, core_chaincode_id, server_address, core_address) {
            Ok((id, address)) => Server::new(id, address.as_str(), resolved),
            Err(e) => Err(e),
        }
    }

    /// A server for the installed package `chaincode_id` at `address`, given what
    /// the address resolved to or why it did not. Of several addresses the first
    /// is taken.
    pub fn new(
        chaincode_id: String,
        address: &str,
        resolved: std::result::Result<Vec<A>, String>,
    ) -> (r: Result<Server<A>>)
        ensures
            match configured(chaincode_id@, address@, resolution(resolved)) {
                Ok(view) => r matches Ok(server) && server@ == view,
                Err(e) => r matches Err(error) && error@ == e,
            },
    {
        if let Err(e) = require_chaincode_id(chaincode_id.as_str()) {
            return Err(e);
        }
        let mut addresses = match resolved {
            Ok(addresses) => addresses,
            Err(fault) => {
                let mut detail = text::triple(
                    "invalid address ",
                    text::debug_text(address).as_str(),
                    ": ",
                );
                detail.append(fault.as_str());
                return Err(Error::Config(detail));
            },
        };
        if addresses.len() == 0 {
            return Err(
                Error::Config(
                    text::triple(
                        "address ",
                        text::debug_text(address).as_str(),
                        " resolved to nothing",
                    ),
                ),
            );
        }
        let address = addresses.remove(0);
        Ok(Server { chaincode_id, address, max_message_size: DEFAULT_MAX_MESSAGE_SIZE })
    }

    /// Sets the limit on the size of a message.
    pub fn max_message_size(self, bytes: usize) -> (r: Server<A>)
        ensures
            r@ == (ServerView { max_message_size: bytes, ..self@ }),
    {
        Server { chaincode_id: self.chaincode_id, address: self.address, max_message_size: bytes }
    }

    /// The package id.
    pub fn chaincode_id(&self) -> (r: &str)
        ensures
            r@ == self@.chaincode_id,
    {
        self.chaincode_id.as_str()
    }

    /// The address to bind.
    pub fn address(&self) -> (r: &A)
        ensures
            *r == self@.address,
    {
        &self.address
    }

    /// The limit on the size of a message.
    pub fn message_limit(&self) -> (r: usize)
        ensures
            r == self@.max_message_size,
    {
        self.max_message_size
    }
}

/// The error of an address that cannot be bound.
pub fn bind_error(address: &str, fault: &str) -> (r: Error)
    ensures
        r@ == ErrorView::Transport("bind "@ + address@ + ": "@ + fault@),
{
    let mut detail = text::triple("bind ", address, ": ");
    detail.append(fault);
    Error::Transport(detail)
}

} // verus!
