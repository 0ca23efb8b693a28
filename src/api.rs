use vstd::prelude::*;

use crate::chain_config::{decimal, decimal_string};

verus! {

/// A control operation on one chain, as the HTTP surface names it.
#[derive(Debug, Clone, Copy, PartialEq, Eq, Structural)]
pub enum ChainAction {
    Start,
    Stop,
    Restart,
    Delete,
}

pub open spec fn action_name(a: ChainAction) -> Seq<char> {
    match a {
        ChainAction::Start => "start"@,
        ChainAction::Stop => "stop"@,
        ChainAction::Restart => "restart"@,
        ChainAction::Delete => "delete"@,
    }
}

impl ChainAction {
    pub fn name(&self) -> (r: &'static str)
        ensures
            r@ == action_name(*self),
    {
        match self {
            ChainAction::Start => "start",
            ChainAction::Stop => "stop",
            ChainAction::Restart => "restart",
            ChainAction::Delete => "delete",
        }
    }
}

/// Client of the manager's HTTP surface. It is passed to whatever needs it
/// rather than held in a global.
#[derive(Debug)]
pub struct Api {
    base_url: String,
}

impl Api {
    /// Prefix of every URL this client builds.
    pub closed spec fn base(&self) -> Seq<char> {
        self.base_url@
    }

    /// A client for the server at `base_url` (empty for the page's own origin).
    pub fn init(base_url: String) -> (r: Api)
        ensures
            r.base() == base_url@,
    {
        Api { base_url }
    }

    /// Another handle on the same server.
    pub fn instance(&self) -> (r: Api)
        ensures
            r.base() == self.base(),
    {
        Api { base_url: self.base_url.clone() }
    }

    /// Where chains are listed (GET) and created (POST).
    pub fn chains_url(&self) -> (r: String)
        ensures
            r@ == self.base() + "/api/chains"@,
    {
        let mut r = self.base_url.clone();
        r.append("/api/chains");
        r
    }

    /// Where `action` is posted for the chain `id`.
    pub fn action_url(&self, id: u64, action: ChainAction) -> (r: String)
        ensures
            r@ == self.base() + "/api/chains/"@ + decimal(id as nat) + "/"@ + action_name(action),
    {
        let mut r = self.base_url.clone();
        r.append("/api/chains/");
        let digits = decimal_string(id);
        r.append(digits.as_str());
        r.append("/");
        r.append(action.name());
        r
    }

    /// Where one block of the chain `chain_id` is fetched.
    pub fn block_url(&self, chain_id: u64, number: u64) -> (r: String)
        ensures
            r@ == self.base() + "/api/"@ + decimal(chain_id as nat) + "/"@ + decimal(number as nat),
    {
        let mut r = self.base_url.clone();
        r.append("/api/");
        let chain = decimal_string(chain_id);
        r.append(chain.as_str());
        r.append("/");
        let block = decimal_string(number);
        r.append(block.as_str());
        r
    }

    /// Event stream of the log of the chain `id`, relative to the page.
    pub fn log_stream_url(id: u64) -> (r: String)
        ensures
            r@ == "/api/chains/"@ + decimal(id as nat) + "/logstream"@,
    {
        let mut r = String::from_str("/api/chains/");
        let digits = decimal_string(id);
        r.append(digits.as_str());
        r.append("/logstream");
        r
    }

    /// Event stream of the new blocks of the chain `id`, relative to the page.
    pub fn block_stream_url(id: u64) -> (r: String)
        ensures
            r@ == "/api/chains/"@ + decimal(id as nat) + "/blockstream"@,
    {
        let mut r = String::from_str("/api/chains/");
        let digits = decimal_string(id);
        r.append(digits.as_str());
        r.append("/blockstream");
        r
    }

    /// Accepts a 2xx response; anything else becomes the error `HTTP <status>`.
    pub fn check_status(status: u16) -> (r: Result<(), String>)
        ensures
            200 <= status <= 299 ==> r == Ok::<(), String>(()),
            !(200 <= status <= 299) ==> (r matches Err(m) && m@ == "HTTP "@ + decimal(
                status as nat,
            )),
    {
        if 200 <= status && status <= 299 {
            Ok(())
        } else {
            let mut m = String::from_str("HTTP ");
            let digits = decimal_string(status as u64);
            m.append(digits.as_str());
            Err(m)
        }
    }
}

} // verus!
