//! How a session is set up, and the directory through which a distributed
//! plan reaches its worker tasks.
//!
//! Every worker task lives in this process: the directory lists one address
//! and hands out one channel, the client end of an in-memory pipe, whatever
//! address it is asked for.
use vstd::prelude::*;

verus! {

/// Tasks that each network shuffle spreads a stage over.
pub const NETWORK_SHUFFLE_TASKS: usize = 4;

/// Tasks that each network coalesce gathers a stage from.
pub const NETWORK_COALESCE_TASKS: usize = 4;

/// How a distributed session splits its plan into stages.
pub struct DistributedOptions {
    pub shuffle_tasks: usize,
    pub coalesce_tasks: usize,
}

/// What a session is built with.
pub struct SessionOptions {
    /// Whether the `information_schema` tables are visible.
    pub information_schema: bool,
    /// The distributed rewrite and its fan-out, where the request asked for it.
    pub distributed: Option<DistributedOptions>,
}

/// The options of a session for a request, distributed or not.
pub fn session_options(distributed: bool) -> (r: SessionOptions)
    ensures
        r.information_schema,
        r.distributed is Some <==> distributed,
        r.distributed matches Some(d) ==> d.shuffle_tasks == NETWORK_SHUFFLE_TASKS
            && d.coalesce_tasks == NETWORK_COALESCE_TASKS,
{
    SessionOptions {
        information_schema: true,
        distributed: if distributed {
            Some(
                DistributedOptions {
                    shuffle_tasks: NETWORK_SHUFFLE_TASKS,
                    coalesce_tasks: NETWORK_COALESCE_TASKS,
                },
            )
        } else {
            None
        },
    }
}

/// The one address that the directory lists. Nothing ever dials it.
pub open spec fn loopback_address() -> Seq<char> {
    seq![
        'h', 't', 't', 'p', ':', '/', '/', 'l', 'o', 'c', 'a', 'l', 'h', 'o', 's', 't', ':',
        '5', '0', '0', '5', '1',
    ]
}

/// Maps the address of any worker task to the one channel it holds.
pub struct ChannelDirectory<C> {
    channel: C,
}

impl<C> ChannelDirectory<C> {
    /// The channel that every address resolves to.
    pub closed spec fn channel(&self) -> C {
        self.channel
    }

    /// What `address` resolves to.
    pub open spec fn resolved(&self, address: Seq<char>) -> C {
        self.channel()
    }

    /// A directory that hands out `channel` for every address.
    pub fn new(channel: C) -> (r: Self)
        ensures
            r.channel() == channel,
    {
        ChannelDirectory { channel }
    }

    /// The addresses of the worker tasks: the loopback address alone.
    pub fn list_addresses(&self) -> (r: Vec<String>)
        ensures
            r@.len() == 1,
            r@[0]@ == loopback_address(),
    {
        let address = String::from_str("http://localhost:50051");
        proof {
            reveal_strlit("http://localhost:50051");
            assert(address@ =~= loopback_address());
        }
        let mut r: Vec<String> = Vec::new();
        r.push(address);
        r
    }

    /// The channel to the worker task at `address`.
    pub fn resolve(&self, address: &str) -> (r: &C)
        ensures
            *r == self.resolved(address@),
    {
        &self.channel
    }
}

/// Whatever two addresses are asked for, a directory resolves them to the same
/// channel: every distributed request reaches the same transport.
pub proof fn lemma_one_channel_for_all_addresses<C>(
    directory: ChannelDirectory<C>,
    a: Seq<char>,
    b: Seq<char>,
)
    ensures
        directory.resolved(a) == directory.resolved(b),
        directory.resolved(a) == directory.channel(),
{
}

} // verus!
