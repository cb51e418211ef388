//! The settings of one transfer run and the builder that assembles them.
use vstd::prelude::*;

use crate::size::Size;

verus! {

/// The transport a run uses.
#[derive(Clone, Copy, Debug, PartialEq, Eq, Structural)]
pub enum Protocol {
    Tcp,
    Udp,
    Quic,
}

/// How blocks are sent: back to back, or each one acknowledged before the next.
#[derive(Clone, Copy, Debug, PartialEq, Eq, Structural)]
pub enum TransferMechanism {
    Streaming,
    StopAndWait,
}

/// The largest block size, in bytes, that a run may use (64 KB).
pub const MAX_BLOCK_BYTES: usize = 65536;

/// The settings of a run, as plain values.
pub struct ConfigView {
    pub protocol: Protocol,
    pub payload_size: Size,
    pub transfer_mechanism: TransferMechanism,
    pub block_size: Size,
    pub seed: u64,
}

/// The settings of one run. The block size never exceeds 64 KB.
pub struct Config {
    protocol: Protocol,
    payload_size: Size,
    transfer_mechanism: TransferMechanism,
    block_size: Size,
    seed: u64,
}

impl Config {
    #[verifier::type_invariant]
    closed spec fn block_size_fits(self) -> bool {
        self.block_size.byte_count() <= MAX_BLOCK_BYTES
    }

    /// The settings as plain values.
    pub closed spec fn view(&self) -> ConfigView {
        ConfigView {
            protocol: self.protocol,
            payload_size: self.payload_size,
            transfer_mechanism: self.transfer_mechanism,
            block_size: self.block_size,
            seed: self.seed,
        }
    }

    pub fn protocol(&self) -> (r: &Protocol)
        ensures
            *r == self@.protocol,
    {
        &self.protocol
    }

    pub fn payload_size(&self) -> (r: &Size)
        ensures
            *r == self@.payload_size,
    {
        &self.payload_size
    }

    pub fn transfer_mechanism(&self) -> (r: &TransferMechanism)
        ensures
            *r == self@.transfer_mechanism,
    {
        &self.transfer_mechanism
    }

    /// The block size; it is at most 64 KB.
    pub fn block_size(&self) -> (r: &Size)
        ensures
            *r == self@.block_size,
            r.byte_count() <= MAX_BLOCK_BYTES,
    {
        proof {
            use_type_invariant(self);
        }
        &self.block_size
    }

    pub fn seed(&self) -> (r: &u64)
        ensures
            *r == self@.seed,
    {
        &self.seed
    }
}

/// Assembles a `Config`, starting from defaults.
pub struct ConfigBuilder(Config);

impl ConfigBuilder {
    /// The settings assembled so far.
    pub closed spec fn view(&self) -> ConfigView {
        self.0@
    }

    /// TCP, streaming, a payload and a block of one byte each, seed 314.
    pub fn new() -> (r: Self)
        ensures
            r@ == default_settings(),
    {
        ConfigBuilder(
            Config {
                protocol: Protocol::Tcp,
                payload_size: Size::Byte(1),
                transfer_mechanism: TransferMechanism::Streaming,
                block_size: Size::Byte(1),
                seed: 314,
            },
        )
    }

    pub fn protocol(self, value: Protocol) -> (r: Self)
        ensures
            r@ == (ConfigView { protocol: value, ..self@ }),
            r@ == apply_call(self@, BuilderCall::Protocol(value)),
    {
        proof {
            use_type_invariant(&self.0);
        }
        let Config { protocol: _, payload_size, transfer_mechanism, block_size, seed } = self.0;
        ConfigBuilder(Config { protocol: value, payload_size, transfer_mechanism, block_size, seed })
    }

    pub fn payload_size(self, value: Size) -> (r: Self)
        ensures
            r@ == (ConfigView { payload_size: value, ..self@ }),
            r@ == apply_call(self@, BuilderCall::PayloadSize(value)),
    {
        proof {
            use_type_invariant(&self.0);
        }
        let Config { protocol, payload_size: _, transfer_mechanism, block_size, seed } = self.0;
        ConfigBuilder(Config { protocol, payload_size: value, transfer_mechanism, block_size, seed })
    }

    pub fn transfer_mechanism(self, value: TransferMechanism) -> (r: Self)
        ensures
            r@ == (ConfigView { transfer_mechanism: value, ..self@ }),
            r@ == apply_call(self@, BuilderCall::TransferMechanism(value)),
    {
        proof {
            use_type_invariant(&self.0);
        }
        let Config { protocol, payload_size, transfer_mechanism: _, block_size, seed } = self.0;
        ConfigBuilder(Config { protocol, payload_size, transfer_mechanism: value, block_size, seed })
    }

    /// Sets the block size, which must not exceed 64 KB.
    pub fn block_size(self, size: Size) -> (r: Self)
        requires
            size.byte_count() <= MAX_BLOCK_BYTES,
        ensures
            r@ == (ConfigView { block_size: size, ..self@ }),
            r@ == apply_call(self@, BuilderCall::BlockSize(size)),
    {
        let Config { protocol, payload_size, transfer_mechanism, block_size: _, seed } = self.0;
        ConfigBuilder(Config { protocol, payload_size, transfer_mechanism, block_size: size, seed })
    }

    pub fn seed(self, value: u64) -> (r: Self)
        ensures
            r@ == (ConfigView { seed: value, ..self@ }),
            r@ == apply_call(self@, BuilderCall::Seed(value)),
    {
        proof {
            use_type_invariant(&self.0);
        }
        let Config { protocol, payload_size, transfer_mechanism, block_size, seed: _ } = self.0;
        ConfigBuilder(Config { protocol, payload_size, transfer_mechanism, block_size, seed: value })
    }

    pub fn build(self) -> (r: Config)
        ensures
            r@ == self@,
    {
        self.0
    }
}

/// One call of a `ConfigBuilder` setter, with its argument.
pub enum BuilderCall {
    Protocol(Protocol),
    PayloadSize(Size),
    TransferMechanism(TransferMechanism),
    BlockSize(Size),
    Seed(u64),
}

/// The settings after one setter call, as the setters' contracts state.
pub open spec fn apply_call(v: ConfigView, call: BuilderCall) -> ConfigView {
    match call {
        BuilderCall::Protocol(p) => ConfigView { protocol: p, ..v },
        BuilderCall::PayloadSize(s) => ConfigView { payload_size: s, ..v },
        BuilderCall::TransferMechanism(m) => ConfigView { transfer_mechanism: m, ..v },
        BuilderCall::BlockSize(s) => ConfigView { block_size: s, ..v },
        BuilderCall::Seed(x) => ConfigView { seed: x, ..v },
    }
}

/// The settings after a sequence of setter calls, in order.
pub open spec fn apply_calls(v: ConfigView, calls: Seq<BuilderCall>) -> ConfigView
    decreases calls.len(),
{
    if calls.len() == 0 {
        v
    } else {
        apply_calls(apply_call(v, calls[0]), calls.drop_first())
    }
}

/// The settings `ConfigBuilder::new` starts from.
pub open spec fn default_settings() -> ConfigView {
    ConfigView {
        protocol: Protocol::Tcp,
        payload_size: Size::Byte(1),
        transfer_mechanism: TransferMechanism::Streaming,
        block_size: Size::Byte(1),
        seed: 314,
    }
}

/// The argument of the last `protocol` call, or `d` if there is none.
pub open spec fn last_protocol(calls: Seq<BuilderCall>, d: Protocol) -> Protocol
    decreases calls.len(),
{
    if calls.len() == 0 {
        d
    } else {
        last_protocol(
            calls.drop_first(),
            match calls[0] {
                BuilderCall::Protocol(p) => p,
                _ => d,
            },
        )
    }
}

/// The argument of the last `payload_size` call, or `d` if there is none.
pub open spec fn last_payload_size(calls: Seq<BuilderCall>, d: Size) -> Size
    decreases calls.len(),
{
    if calls.len() == 0 {
        d
    } else {
        last_payload_size(
            calls.drop_first(),
            match calls[0] {
                BuilderCall::PayloadSize(s) => s,
                _ => d,
            },
        )
    }
}

/// The argument of the last `transfer_mechanism` call, or `d` if there is none.
pub open spec fn last_transfer_mechanism(
    calls: Seq<BuilderCall>,
    d: TransferMechanism,
) -> TransferMechanism
    decreases calls.len(),
{
    if calls.len() == 0 {
        d
    } else {
        last_transfer_mechanism(
            calls.drop_first(),
            match calls[0] {
                BuilderCall::TransferMechanism(m) => m,
                _ => d,
            },
        )
    }
}

/// The argument of the last `block_size` call, or `d` if there is none.
pub open spec fn last_block_size(calls: Seq<BuilderCall>, d: Size) -> Size
    decreases calls.len(),
{
    if calls.len() == 0 {
        d
    } else {
        last_block_size(
            calls.drop_first(),
            match calls[0] {
                BuilderCall::BlockSize(s) => s,
                _ => d,
            },
        )
    }
}

/// The argument of the last `seed` call, or `d` if there is none.
pub open spec fn last_seed(calls: Seq<BuilderCall>, d: u64) -> u64
    decreases calls.len(),
{
    if calls.len() == 0 {
        d
    } else {
        last_seed(
            calls.drop_first(),
            match calls[0] {
                BuilderCall::Seed(x) => x,
                _ => d,
            },
        )
    }
}

/// After any sequence of setter calls each setting is the argument of the
/// last call of its own setter, or what it was before: calls to different
/// setters do not interfere.
pub proof fn lemma_calls_keep_last_value(v: ConfigView, calls: Seq<BuilderCall>)
    ensures
        apply_calls(v, calls) == (ConfigView {
            protocol: last_protocol(calls, v.protocol),
            payload_size: last_payload_size(calls, v.payload_size),
            transfer_mechanism: last_transfer_mechanism(calls, v.transfer_mechanism),
            block_size: last_block_size(calls, v.block_size),
            seed: last_seed(calls, v.seed),
        }),
    decreases calls.len(),
{
    if calls.len() > 0 {
        lemma_calls_keep_last_value(apply_call(v, calls[0]), calls.drop_first());
    }
}

/// A configuration built from `ConfigBuilder::new` and any sequence of setter
/// calls holds, for each setting, the argument of the last call of its
/// setter, or the default (TCP, a payload and a block of one byte,
/// streaming, seed 314) when there was none.
pub proof fn lemma_built_config(calls: Seq<BuilderCall>)
    ensures
        apply_calls(default_settings(), calls) == (ConfigView {
            protocol: last_protocol(calls, Protocol::Tcp),
            payload_size: last_payload_size(calls, Size::Byte(1)),
            transfer_mechanism: last_transfer_mechanism(calls, TransferMechanism::Streaming),
            block_size: last_block_size(calls, Size::Byte(1)),
            seed: last_seed(calls, 314),
        }),
{
    lemma_calls_keep_last_value(default_settings(), calls);
}

} // verus!
