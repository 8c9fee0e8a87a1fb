//! Per-connection subscription state: the channels a connection has joined,
//! kept in step with the registry.

use vstd::prelude::*;
use vstd::string::StringSliceAdditionalSpecFns;
use crate::registry::{
    Registry, joined, left, left_all, lemma_filter_no_duplicates, lemma_without_pushed,
    members_of, registry_ok, same_bytes, without_value,
};

verus! {

/// The length of a channel id, in bytes.
pub const TOKEN_LEN: usize = 32;

/// How many channels a connection may join unless configured otherwise.
pub const DEFAULT_MAX_CHANNELS: usize = 32;

/// Why a Subscribe or Unsubscribe command was refused.
#[derive(Debug, Clone, Copy, PartialEq, Eq, Structural)]
pub enum ChannelError {
    WrongTokenLength,
    AlreadySubscribed,
    TooManyChannels,
    NotSubscribed,
}

/// The ASCII text of a refusal, as it travels in an error reply.
pub open spec fn channel_error_text(e: ChannelError) -> Seq<u8> {
    match e {
        ChannelError::WrongTokenLength => "Expected token length 32".spec_bytes(),
        ChannelError::AlreadySubscribed => "Already subscribed".spec_bytes(),
        ChannelError::TooManyChannels => "Too many channels".spec_bytes(),
        ChannelError::NotSubscribed => "Not subscribed".spec_bytes(),
    }
}

impl ChannelError {
    /// The refusal's text as bytes: the payload of the reply that reports it.
    pub fn to_bytes(&self) -> (r: Vec<u8>)
        ensures
            r@ == channel_error_text(*self),
    {
        let s = match self {
            ChannelError::WrongTokenLength => "Expected token length 32",
            ChannelError::AlreadySubscribed => "Already subscribed",
            ChannelError::TooManyChannels => "Too many channels",
            ChannelError::NotSubscribed => "Not subscribed",
        };
        vstd::slice::slice_to_vec(s.as_bytes())
    }
}

/// What a connection is, to the proofs: its identifier, the channels it has
/// joined in order, and its cap on channels.
pub struct ConnectionView {
    pub id: u64,
    pub channels: Seq<Seq<u8>>,
    pub max_channels: nat,
}

/// The invariant of a connection's channel list: each entry is a channel id,
/// none occurs twice, and there are no more than the cap.
pub open spec fn channels_ok(chans: Seq<Seq<u8>>, max_channels: nat) -> bool {
    &&& chans.no_duplicates()
    &&& forall|k: int| 0 <= k < chans.len() ==> (#[trigger] chans[k]).len() == TOKEN_LEN
    &&& chans.len() <= max_channels
}

/// The answer to a Subscribe for `c`, checked in this order: the id's length,
/// an existing subscription, the cap.
pub open spec fn subscribe_check(chans: Seq<Seq<u8>>, c: Seq<u8>, max_channels: nat) -> Result<
    (),
    ChannelError,
> {
    if c.len() != TOKEN_LEN {
        Err(ChannelError::WrongTokenLength)
    } else if chans.contains(c) {
        Err(ChannelError::AlreadySubscribed)
    } else if chans.len() >= max_channels {
        Err(ChannelError::TooManyChannels)
    } else {
        Ok(())
    }
}

/// The answer to an Unsubscribe for `c`.
pub open spec fn unsubscribe_check(chans: Seq<Seq<u8>>, c: Seq<u8>) -> Result<(), ChannelError> {
    if c.len() != TOKEN_LEN {
        Err(ChannelError::WrongTokenLength)
    } else if !chans.contains(c) {
        Err(ChannelError::NotSubscribed)
    } else {
        Ok(())
    }
}

/// `chans` without the channel `c`.
pub open spec fn without_channel(chans: Seq<Seq<u8>>, c: Seq<u8>) -> Seq<Seq<u8>> {
    without_value(chans, c)
}

/// Appends the bytes of `src` to `dst`.
pub fn append_bytes(dst: &mut Vec<u8>, src: &Vec<u8>)
    ensures
        final(dst)@ == old(dst)@ + src@,
{
    let ghost start = dst@;
    let mut i: usize = 0;
    while i < src.len()
        invariant
            0 <= i <= src@.len(),
            dst@ == start + src@.subrange(0, i as int),
        decreases src@.len() - i,
    {
        dst.push(src[i]);
        i = i + 1;
        assert(dst@ =~= start + src@.subrange(0, i as int));
    }
    assert(src@.subrange(0, i as int) =~= src@);
}

/// The connection after a Subscribe for `c`.
pub open spec fn after_subscribe(v: ConnectionView, c: Seq<u8>) -> ConnectionView {
    if subscribe_check(v.channels, c, v.max_channels) is Ok {
        ConnectionView { id: v.id, channels: v.channels.push(c), max_channels: v.max_channels }
    } else {
        v
    }
}

/// The registry after connection `v` asks to subscribe to `c`.
pub open spec fn registry_after_subscribe(
    v: ConnectionView,
    m: Map<Seq<u8>, Seq<u64>>,
    c: Seq<u8>,
) -> Map<Seq<u8>, Seq<u64>> {
    if subscribe_check(v.channels, c, v.max_channels) is Ok {
        joined(m, c, v.id)
    } else {
        m
    }
}

/// The connection after an Unsubscribe for `c`.
pub open spec fn after_unsubscribe(v: ConnectionView, c: Seq<u8>) -> ConnectionView {
    if unsubscribe_check(v.channels, c) is Ok {
        ConnectionView {
            id: v.id,
            channels: without_channel(v.channels, c),
            max_channels: v.max_channels,
        }
    } else {
        v
    }
}

/// The registry after connection `v` asks to unsubscribe from `c`.
pub open spec fn registry_after_unsubscribe(
    v: ConnectionView,
    m: Map<Seq<u8>, Seq<u64>>,
    c: Seq<u8>,
) -> Map<Seq<u8>, Seq<u64>> {
    if unsubscribe_check(v.channels, c) is Ok {
        left(m, c, v.id)
    } else {
        m
    }
}

/// The channel ids of `chans` written one after another.
pub open spec fn concat(chans: Seq<Seq<u8>>) -> Seq<u8>
    decreases chans.len(),
{
    if chans.len() == 0 {
        Seq::empty()
    } else {
        concat(chans.drop_last()) + chans.last()
    }
}

/// The connection state and the registry after the connection asks, in turn,
/// to subscribe to each channel of `toks`; refusals are passed over.
pub open spec fn subscribe_all(v: ConnectionView, m: Map<Seq<u8>, Seq<u64>>, toks: Seq<Seq<u8>>) -> (
    ConnectionView,
    Map<Seq<u8>, Seq<u64>>,
)
    decreases toks.len(),
{
    if toks.len() == 0 {
        (v, m)
    } else {
        let (v1, m1) = subscribe_all(v, m, toks.drop_last());
        (after_subscribe(v1, toks.last()), registry_after_subscribe(v1, m1, toks.last()))
    }
}

/// The name of the request header that carries initial channel ids.
pub open spec fn token_header_name() -> Seq<u8> {
    "X-Token".spec_bytes()
}

/// A header value cut into consecutive 32-byte channel ids; a shorter tail is
/// no channel id and is dropped.
pub open spec fn header_tokens(value: Seq<u8>) -> Seq<Seq<u8>> {
    Seq::new(
        value.len() / 32,
        |k: int| value.subrange(32 * k, 32 * k + 32),
    )
}

/// The channel ids of every token header among `headers`, in order.
pub open spec fn token_stream(headers: Seq<(Vec<u8>, Vec<u8>)>) -> Seq<Seq<u8>>
    decreases headers.len(),
{
    if headers.len() == 0 {
        Seq::empty()
    } else if headers.last().0@ == token_header_name() {
        token_stream(headers.drop_last()) + header_tokens(headers.last().1@)
    } else {
        token_stream(headers.drop_last())
    }
}

/// A Subscribe that succeeds, followed at once by an Unsubscribe of the same
/// channel, also succeeds and gives back the connection's list as it was, so
/// its channel count returns to its earlier value. Where the connection was
/// not among the channel's subscribers before, the registry returns to what
/// it was too; in particular a channel that had no entry has none again.
pub proof fn lemma_subscribe_then_unsubscribe(
    v: ConnectionView,
    m: Map<Seq<u8>, Seq<u64>>,
    c: Seq<u8>,
)
    requires
        channels_ok(v.channels, v.max_channels),
        registry_ok(m),
        subscribe_check(v.channels, c, v.max_channels) is Ok,
    ensures
        unsubscribe_check(after_subscribe(v, c).channels, c) is Ok,
        after_unsubscribe(after_subscribe(v, c), c) == v,
        after_unsubscribe(after_subscribe(v, c), c).channels.len() == v.channels.len(),
        !members_of(m, c).contains(v.id) ==> registry_after_unsubscribe(
            after_subscribe(v, c),
            registry_after_subscribe(v, m, c),
            c,
        ) == m,
        !m.contains_key(c) ==> !registry_after_unsubscribe(
            after_subscribe(v, c),
            registry_after_subscribe(v, m, c),
            c,
        ).contains_key(c),
{
    let v1 = after_subscribe(v, c);
    assert(v1.channels[v1.channels.len() - 1] == c);
    lemma_without_pushed(v.channels, c);
    if !members_of(m, c).contains(v.id) {
        let m1 = joined(m, c, v.id);
        assert(m1 == m.insert(c, members_of(m, c).push(v.id)));
        lemma_without_pushed(members_of(m, c), v.id);
        assert(m1[c] == members_of(m, c).push(v.id));
        if m.contains_key(c) {
            assert(m[c].len() > 0);
            assert(m.insert(c, m[c]) =~= m);
        } else {
            assert(m1.remove(c) =~= m);
        }
    }
}

/// A second Subscribe to a channel just joined is refused as a duplicate and
/// changes neither the connection nor the registry.
pub proof fn lemma_subscribe_twice(v: ConnectionView, m: Map<Seq<u8>, Seq<u64>>, c: Seq<u8>)
    requires
        subscribe_check(v.channels, c, v.max_channels) is Ok,
    ensures
        subscribe_check(after_subscribe(v, c).channels, c, v.max_channels) == Err::<
            (),
            ChannelError,
        >(ChannelError::AlreadySubscribed),
        after_subscribe(after_subscribe(v, c), c) == after_subscribe(v, c),
        registry_after_subscribe(after_subscribe(v, c), registry_after_subscribe(v, m, c), c)
            == registry_after_subscribe(v, m, c),
{
    let v1 = after_subscribe(v, c);
    assert(v1.channels[v1.channels.len() - 1] == c);
}

/// Once a connection has as many channels as its cap allows, a Subscribe to
/// any further well-formed channel id is refused for that reason and changes
/// neither the connection nor the registry.
pub proof fn lemma_subscribe_at_cap(v: ConnectionView, m: Map<Seq<u8>, Seq<u64>>, c: Seq<u8>)
    requires
        v.channels.len() >= v.max_channels,
        c.len() == TOKEN_LEN,
        !v.channels.contains(c),
    ensures
        subscribe_check(v.channels, c, v.max_channels) == Err::<(), ChannelError>(
            ChannelError::TooManyChannels,
        ),
        after_subscribe(v, c) == v,
        registry_after_subscribe(v, m, c) == m,
{
}

/// The state of one open connection.
pub struct Connection {
    id: u64,
    channels: Vec<Vec<u8>>,
    max_channels: usize,
}

impl View for Connection {
    type V = ConnectionView;

    closed spec fn view(&self) -> ConnectionView {
        ConnectionView {
            id: self.id,
            channels: self.channels@.map_values(|c: Vec<u8>| c@),
            max_channels: self.max_channels as nat,
        }
    }
}

impl Connection {
    pub open spec fn wf(&self) -> bool {
        channels_ok(self@.channels, self@.max_channels)
    }

    /// A connection with identifier `id` that has joined no channel yet.
    pub fn new(id: u64, max_channels: usize) -> (r: Connection)
        ensures
            r.wf(),
            r@.id == id,
            r@.channels == Seq::<Seq<u8>>::empty(),
            r@.max_channels == max_channels,
    {
        let r = Connection { id, channels: Vec::new(), max_channels };
        assert(r@.channels =~= Seq::<Seq<u8>>::empty());
        r
    }

    pub fn id(&self) -> (r: u64)
        ensures
            r == self@.id,
    {
        self.id
    }

    pub fn max_channels(&self) -> (r: usize)
        ensures
            r == self@.max_channels,
    {
        self.max_channels
    }

    /// How many channels the connection has joined.
    pub fn channel_count(&self) -> (r: usize)
        ensures
            r == self@.channels.len(),
    {
        self.channels.len()
    }

    /// Whether the connection has joined `channel`, by a scan of its list.
    pub fn is_subscribed(&self, channel: &Vec<u8>) -> (r: bool)
        ensures
            r == self@.channels.contains(channel@),
    {
        let mut i: usize = 0;
        while i < self.channels.len()
            invariant
                0 <= i <= self.channels@.len(),
                forall|k: int| 0 <= k < i ==> self@.channels[k] != channel@,
            decreases self.channels@.len() - i,
        {
            if same_bytes(&self.channels[i], channel) {
                assert(self@.channels[i as int] == channel@);
                return true;
            }
            i = i + 1;
        }
        false
    }

    /// Joins `channel`: on success the connection is added to the channel's
    /// subscribers and the channel to the end of the connection's list. A
    /// wrong length, a channel joined already, or a full list is refused, and
    /// then nothing changes.
    pub fn subscribe(&mut self, reg: &mut Registry, channel: Vec<u8>) -> (r: Result<(), ChannelError>)
        requires
            old(self).wf(),
            old(reg).wf(),
        ensures
            final(self).wf(),
            final(reg).wf(),
            r == subscribe_check(old(self)@.channels, channel@, old(self)@.max_channels),
            final(self)@ == after_subscribe(old(self)@, channel@),
            final(reg)@ == registry_after_subscribe(old(self)@, old(reg)@, channel@),
    {
        let ghost before = self@;
        if channel.len() != TOKEN_LEN {
            return Err(ChannelError::WrongTokenLength);
        }
        if self.is_subscribed(&channel) {
            return Err(ChannelError::AlreadySubscribed);
        }
        if self.channels.len() >= self.max_channels {
            return Err(ChannelError::TooManyChannels);
        }
        reg.join(&channel, self.id);
        let ghost c = channel@;
        self.channels.push(channel);
        proof {
            let chans = self@.channels;
            assert(chans =~= before.channels.push(c));
            assert forall|a: int, b: int|
                0 <= a < chans.len() && 0 <= b < chans.len() && a != b implies chans[a]
                != chans[b] by {
                if a == chans.len() - 1 {
                    assert(before.channels[b] == chans[b]);
                } else if b == chans.len() - 1 {
                    assert(before.channels[a] == chans[a]);
                }
            }
        }
        Ok(())
    }

    /// Leaves `channel`: on success the channel goes from the connection's
    /// list and the connection from the channel's subscribers, and the
    /// channel's entry goes away once nobody is left in it. A wrong length or
    /// a channel not joined is refused, and then nothing changes.
    pub fn unsubscribe(&mut self, reg: &mut Registry, channel: &Vec<u8>) -> (r: Result<(), ChannelError>)
        requires
            old(self).wf(),
            old(reg).wf(),
        ensures
            final(self).wf(),
            final(reg).wf(),
            r == unsubscribe_check(old(self)@.channels, channel@),
            final(self)@ == after_unsubscribe(old(self)@, channel@),
            final(reg)@ == registry_after_unsubscribe(old(self)@, old(reg)@, channel@),
    {
        let ghost before = self@;
        if channel.len() != TOKEN_LEN {
            return Err(ChannelError::WrongTokenLength);
        }
        if !self.is_subscribed(channel) {
            return Err(ChannelError::NotSubscribed);
        }
        reg.leave(channel, self.id);
        let mut kept: Vec<Vec<u8>> = Vec::new();
        let mut i: usize = 0;
        while i < self.channels.len()
            invariant
                0 <= i <= self.channels@.len(),
                self@ == before,
                kept@.map_values(|c: Vec<u8>| c@) == without_channel(
                    before.channels.subrange(0, i as int),
                    channel@,
                ),
            decreases self.channels@.len() - i,
        {
            let ghost prefix = before.channels.subrange(0, i as int + 1);
            assert(prefix.drop_last() =~= before.channels.subrange(0, i as int));
            assert(prefix.last() == self.channels@[i as int]@);
            reveal(Seq::filter);
            if !same_bytes(&self.channels[i], channel) {
                let c = self.channels[i].clone();
                assert(c@ =~= self.channels@[i as int]@);
                let ghost old_kept = kept@.map_values(|c: Vec<u8>| c@);
                kept.push(c);
                assert(kept@.map_values(|c: Vec<u8>| c@) =~= old_kept.push(prefix.last()));
            }
            i = i + 1;
        }
        assert(before.channels.subrange(0, i as int) =~= before.channels);
        self.channels = kept;
        proof {
            lemma_filter_no_duplicates(before.channels, channel@);
            let chans = self@.channels;
            assert forall|k: int| 0 <= k < chans.len() implies (#[trigger] chans[k]).len()
                == TOKEN_LEN by {
                assert(chans.contains(chans[k]));
                let j = choose|j: int| 0 <= j < before.channels.len() && before.channels[j] == chans[k];
            }
        }
        Ok(())
    }

    /// The connection's channel ids written one after another, in the order
    /// in which they were joined.
    pub fn list_subscribed(&self) -> (r: Vec<u8>)
        ensures
            r@ == concat(self@.channels),
    {
        let mut r: Vec<u8> = Vec::new();
        let mut i: usize = 0;
        while i < self.channels.len()
            invariant
                0 <= i <= self.channels@.len(),
                r@ == concat(self@.channels.subrange(0, i as int)),
            decreases self.channels@.len() - i,
        {
            let ghost prefix = self@.channels.subrange(0, i as int + 1);
            assert(prefix.drop_last() =~= self@.channels.subrange(0, i as int));
            append_bytes(&mut r, &self.channels[i]);
            i = i + 1;
        }
        assert(self@.channels.subrange(0, i as int) =~= self@.channels);
        r
    }

    /// Subscribes a newly opened connection to the channel ids carried by its
    /// token headers: each such header's value is cut into consecutive 32-byte
    /// ids, and each id is subscribed to as by a Subscribe command. A short
    /// tail, an id joined already and the ids past the cap are passed over, so
    /// the list never holds a channel twice.
    pub fn on_open(&mut self, reg: &mut Registry, headers: &Vec<(Vec<u8>, Vec<u8>)>)
        requires
            old(self).wf(),
            old(reg).wf(),
        ensures
            final(self).wf(),
            final(reg).wf(),
            (final(self)@, final(reg)@) == subscribe_all(
                old(self)@,
                old(reg)@,
                token_stream(headers@),
            ),
    {
        let ghost v0 = self@;
        let ghost m0 = reg@;
        let name = vstd::slice::slice_to_vec("X-Token".as_bytes());
        let mut h: usize = 0;
        while h < headers.len()
            invariant
                0 <= h <= headers@.len(),
                self.wf(),
                reg.wf(),
                name@ == token_header_name(),
                (self@, reg@) == subscribe_all(v0, m0, token_stream(headers@.subrange(0, h as int))),
            decreases headers@.len() - h,
        {
            let ghost done = token_stream(headers@.subrange(0, h as int));
            let ghost upto = headers@.subrange(0, h as int + 1);
            assert(upto.drop_last() =~= headers@.subrange(0, h as int));
            if same_bytes(&headers[h].0, &name) {
                let value = &headers[h].1;
                let ghost toks = header_tokens(value@);
                let vlen: usize = value.len();
                let n: usize = vlen / TOKEN_LEN;
                let mut k: usize = 0;
                let mut start: usize = 0;
                while k < n
                    invariant
                        0 <= k <= n,
                        n == value@.len() / 32,
                        vlen == value@.len(),
                        toks == header_tokens(value@),
                        start == 32 * k,
                        self.wf(),
                        reg.wf(),
                        (self@, reg@) == subscribe_all(v0, m0, done + toks.subrange(0, k as int)),
                    decreases n - k,
                {
                    assert(32 * k + 32 <= value@.len()) by (nonlinear_arith)
                        requires
                            k < n,
                            n == value@.len() / 32,
                    ;
                    assert(start + 32 <= value@.len());
                    let token = vstd::slice::slice_to_vec(
                        vstd::slice::slice_subrange(value.as_slice(), start, start + TOKEN_LEN),
                    );
                    assert(token@ == toks[k as int]);
                    let ghost next = done + toks.subrange(0, k as int + 1);
                    assert(next.drop_last() =~= done + toks.subrange(0, k as int));
                    assert(next.last() == toks[k as int]);
                    let _ = self.subscribe(reg, token);
                    k = k + 1;
                    start = start + TOKEN_LEN;
                }
                assert(toks.subrange(0, k as int) =~= toks);
            }
            h = h + 1;
        }
        assert(headers@.subrange(0, h as int) =~= headers@);
    }

    /// Takes the connection out of the registry entry of every channel it has
    /// joined, dropping the entries that are left empty.
    pub fn on_close(&self, reg: &mut Registry)
        requires
            old(reg).wf(),
        ensures
            final(reg).wf(),
            final(reg)@ == left_all(old(reg)@, self@.channels, self@.id),
    {
        let ghost start = reg@;
        let mut i: usize = 0;
        while i < self.channels.len()
            invariant
                0 <= i <= self.channels@.len(),
                reg.wf(),
                reg@ == left_all(start, self@.channels.subrange(0, i as int), self@.id),
            decreases self.channels@.len() - i,
        {
            let ghost prefix = self@.channels.subrange(0, i as int + 1);
            assert(prefix.drop_last() =~= self@.channels.subrange(0, i as int));
            reg.leave(&self.channels[i], self.id);
            i = i + 1;
        }
        assert(self@.channels.subrange(0, i as int) =~= self@.channels);
    }
}

} // verus!
