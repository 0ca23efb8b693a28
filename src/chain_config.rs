use vstd::prelude::*;

verus! {

/// Lifecycle state of one chain instance; owned by the registry.
#[derive(Debug, Clone, Copy, PartialEq, Eq, Structural)]
pub enum ChainStatus {
    Stopped,
    Running,
    Starting,
    Error,
}

impl ChainStatus {
    /// Whether a start may be offered to the operator.
    pub fn can_start(&self) -> (r: bool)
        ensures
            r == (*self == ChainStatus::Stopped),
    {
        matches!(self, ChainStatus::Stopped)
    }

    /// Whether a stop may be offered to the operator.
    pub fn can_stop(&self) -> (r: bool)
        ensures
            r == (*self == ChainStatus::Running),
    {
        matches!(self, ChainStatus::Running)
    }

    /// Whether a restart may be offered to the operator.
    pub fn can_restart(&self) -> (r: bool)
        ensures
            r == (*self == ChainStatus::Running || *self == ChainStatus::Error),
    {
        matches!(self, ChainStatus::Running | ChainStatus::Error)
    }

    /// Human readable name of the state.
    pub fn label(&self) -> (r: &'static str)
        ensures
            r@ == status_label(*self),
    {
        proof {
            reveal_strlit("Stopped");
            reveal_strlit("Running");
            reveal_strlit("Starting");
            reveal_strlit("Error");
        }
        match self {
            ChainStatus::Stopped => "Stopped",
            ChainStatus::Running => "Running",
            ChainStatus::Starting => "Starting",
            ChainStatus::Error => "Error",
        }
    }
}

pub open spec fn status_label(s: ChainStatus) -> Seq<char> {
    match s {
        ChainStatus::Stopped => seq!['S', 't', 'o', 'p', 'p', 'e', 'd'],
        ChainStatus::Running => seq!['R', 'u', 'n', 'n', 'i', 'n', 'g'],
        ChainStatus::Starting => seq!['S', 't', 'a', 'r', 't', 'i', 'n', 'g'],
        ChainStatus::Error => seq!['E', 'r', 'r', 'o', 'r'],
    }
}

/// Identity and parameters of one chain instance.
#[derive(Debug, PartialEq, Eq)]
pub struct ChainConfig {
    /// Display label; the manager does not require it to be unique.
    pub name: String,
    /// Unique identifier, the registry's key.
    pub id: u64,
    /// Port of the node's RPC/WebSocket endpoint.
    pub port: u16,
    /// Seconds between produced blocks; 0 lets the node mine on each transaction.
    pub block_time: u64,
    /// Upstream endpoint to fork state from.
    pub fork_url: Option<String>,
    pub status: ChainStatus,
}

impl Clone for ChainConfig {
    fn clone(&self) -> (r: Self)
        ensures
            r == *self,
    {
        let fork_url = match &self.fork_url {
            Some(u) => Some(u.clone()),
            None => None,
        };
        ChainConfig {
            name: self.name.clone(),
            id: self.id,
            port: self.port,
            block_time: self.block_time,
            fork_url,
            status: self.status,
        }
    }
}

impl ChainConfig {
    /// The same configuration with another status.
    pub open spec fn with_status(self, status: ChainStatus) -> ChainConfig {
        ChainConfig { status, ..self }
    }

    /// A fresh configuration that does not collide with `existing`: the next
    /// free id and port above the largest in use, a numbered name, one
    /// second between blocks, not forked, stopped.
    pub fn next(existing: &Vec<ChainConfig>) -> (r: ChainConfig)
        requires
            existing@.len() < u64::MAX,
            forall|i: int| 0 <= i < existing@.len() ==> #[trigger] existing@[i].id < u64::MAX,
            forall|i: int| 0 <= i < existing@.len() ==> #[trigger] existing@[i].port < u16::MAX,
        ensures
            r.name@ == name_prefix() + decimal(existing@.len() + 1),
            r.id == max_id(existing@) + 1,
            r.port == max_port(existing@) + 1,
            r.block_time == 1,
            r.fork_url.is_none(),
            r.status == ChainStatus::Stopped,
    {
        let mut top_id: u64 = 0;
        let mut i: usize = 0;
        while i < existing.len()
            invariant
                i <= existing@.len(),
                top_id == max_id(existing@.subrange(0, i as int)),
                forall|j: int| 0 <= j < existing@.len() ==> #[trigger] existing@[j].id < u64::MAX,
            decreases existing@.len() - i,
        {
            assert(existing@.subrange(0, i + 1).drop_last() =~= existing@.subrange(0, i as int));
            if existing[i].id > top_id {
                top_id = existing[i].id;
            }
            i = i + 1;
        }
        assert(existing@.subrange(0, existing@.len() as int) =~= existing@);
        let mut top_port: u16 = 8544;
        if existing.len() > 0 {
            top_port = existing[0].port;
            assert(existing@.subrange(0, 1)[0] == existing@[0]);
            let mut k: usize = 1;
            while k < existing.len()
                invariant
                    1 <= k <= existing@.len(),
                    top_port == max_port(existing@.subrange(0, k as int)),
                decreases existing@.len() - k,
            {
                assert(existing@.subrange(0, k + 1).drop_last() =~= existing@.subrange(
                    0,
                    k as int,
                ));
                if existing[k].port > top_port {
                    top_port = existing[k].port;
                }
                k = k + 1;
            }
        }
        proof {
            lemma_max_id_bound(existing@);
            lemma_max_port_bound(existing@);
        }
        let count: u64 = existing.len() as u64 + 1;
        let mut name = String::from_str("Chain-");
        proof {
            reveal_strlit("Chain-");
        }
        let digits = decimal_string(count);
        name.append(digits.as_str());
        ChainConfig {
            name,
            id: top_id + 1,
            port: top_port + 1,
            block_time: 1,
            fork_url: None,
            status: ChainStatus::Stopped,
        }
    }
}

pub open spec fn name_prefix() -> Seq<char> {
    seq!['C', 'h', 'a', 'i', 'n', '-']
}

/// Largest id in `s`, or 0 for an empty list.
pub open spec fn max_id(s: Seq<ChainConfig>) -> nat
    decreases s.len(),
{
    if s.len() == 0 {
        0
    } else {
        let m = max_id(s.drop_last());
        if s.last().id > m {
            s.last().id as nat
        } else {
            m
        }
    }
}

/// Largest port in `s`, or 8544 for an empty list.
pub open spec fn max_port(s: Seq<ChainConfig>) -> nat
    decreases s.len(),
{
    if s.len() == 0 {
        8544
    } else if s.len() == 1 {
        s[0].port as nat
    } else {
        let m = max_port(s.drop_last());
        if s.last().port > m {
            s.last().port as nat
        } else {
            m
        }
    }
}

proof fn lemma_max_id_bound(s: Seq<ChainConfig>)
    requires
        forall|i: int| 0 <= i < s.len() ==> #[trigger] s[i].id < u64::MAX,
    ensures
        max_id(s) < u64::MAX,
    decreases s.len(),
{
    if s.len() > 0 {
        assert forall|i: int| 0 <= i < s.drop_last().len() implies #[trigger] s.drop_last()[i].id
            < u64::MAX by {
            assert(s.drop_last()[i] == s[i]);
        }
        lemma_max_id_bound(s.drop_last());
        assert(s.last() == s[s.len() - 1]);
    }
}

proof fn lemma_max_port_bound(s: Seq<ChainConfig>)
    requires
        forall|i: int| 0 <= i < s.len() ==> #[trigger] s[i].port < u16::MAX,
    ensures
        max_port(s) < u16::MAX,
    decreases s.len(),
{
    if s.len() > 0 {
        assert forall|i: int| 0 <= i < s.drop_last().len() implies #[trigger] s.drop_last()[i].port
            < u16::MAX by {
            assert(s.drop_last()[i] == s[i]);
        }
        if s.len() > 1 {
            lemma_max_port_bound(s.drop_last());
        }
        assert(s.last() == s[s.len() - 1]);
    }
}

pub open spec fn digit_char(d: nat) -> char {
    if d == 0 {
        '0'
    } else if d == 1 {
        '1'
    } else if d == 2 {
        '2'
    } else if d == 3 {
        '3'
    } else if d == 4 {
        '4'
    } else if d == 5 {
        '5'
    } else if d == 6 {
        '6'
    } else if d == 7 {
        '7'
    } else if d == 8 {
        '8'
    } else {
        '9'
    }
}

/// Decimal digits of `n`, most significant first, without leading zeros.
pub open spec fn decimal(n: nat) -> Seq<char>
    decreases n,
{
    if n < 10 {
        seq![digit_char(n)]
    } else {
        decimal(n / 10).push(digit_char(n % 10))
    }
}

fn digit_str(d: u64) -> (r: &'static str)
    requires
        d < 10,
    ensures
        r@ == seq![digit_char(d as nat)],
{
    proof {
        reveal_strlit("0");
        reveal_strlit("1");
        reveal_strlit("2");
        reveal_strlit("3");
        reveal_strlit("4");
        reveal_strlit("5");
        reveal_strlit("6");
        reveal_strlit("7");
        reveal_strlit("8");
        reveal_strlit("9");
    }
    if d == 0 {
        "0"
    } else if d == 1 {
        "1"
    } else if d == 2 {
        "2"
    } else if d == 3 {
        "3"
    } else if d == 4 {
        "4"
    } else if d == 5 {
        "5"
    } else if d == 6 {
        "6"
    } else if d == 7 {
        "7"
    } else if d == 8 {
        "8"
    } else {
        "9"
    }
}

/// `n` written in decimal.
pub fn decimal_string(n: u64) -> (r: String)
    ensures
        r@ == decimal(n as nat),
    decreases n,
{
    if n < 10 {
        String::from_str(digit_str(n))
    } else {
        let mut r = decimal_string(n / 10);
        r.append(digit_str(n % 10));
        r
    }
}

} // verus!
