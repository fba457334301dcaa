use vstd::prelude::*;
use crate::emv::card::constants::EMV_RESPONSE_BUFFER_SIZE;
use crate::emv::card::reader::error;
use crate::emv::card::reader::error_mapper::{ErrorMapper, spec_from_reader_error};
use crate::smartcard::apdu::command::{CommandApdu, spec_command_bytes};
use crate::smartcard::apdu::response::ResponseApdu;
use crate::smartcard::reader::SmartCardChannel;
use crate::smartcard::reader::error::Error as ReaderError;

verus! {

/// One APDU exchange as the exchanger saw it: the bytes of the command that
/// it handed to the channel, and what it returned for it (the response's
/// data and status bytes, or the error).
pub struct Exchange {
    pub command: Seq<u8>,
    pub response: Result<(Seq<u8>, u8, u8), error::Error>,
}

/// The model of what `exchange` returns.
pub open spec fn response_model(r: Result<ResponseApdu, error::Error>) -> Result<
    (Seq<u8>, u8, u8),
    error::Error,
> {
    match r {
        Ok(resp) => Ok((resp.data@, resp.sw1, resp.sw2)),
        Err(e) => Err(e),
    }
}

/// The model of what a channel's `exchange_apdu` returns, its failure mapped
/// to the card-reading error.
pub open spec fn channel_response_model(r: Result<ResponseApdu, ReaderError>) -> Result<
    (Seq<u8>, u8, u8),
    error::Error,
> {
    match r {
        Ok(resp) => Ok((resp.data@, resp.sw1, resp.sw2)),
        Err(e) => Err(spec_from_reader_error(e)),
    }
}

/// Exchanges APDUs over a channel, receiving each response into a buffer of
/// its own, and keeps (as ghost state) the list of exchanges made and the
/// states of the channel before and after each of them.
///
/// The contracts of `exchange` and of the readers state, for each recorded
/// exchange `i`, that a call of the channel's `exchange_apdu`, made on the
/// channel as `channel_at(i)` and handed a command whose bytes are the
/// recorded ones, answered what was recorded (a failure mapped) and left
/// the channel as `channel_after(i)`. That clause speaks of the final value
/// of the call's borrow, so it is written out in each contract rather than
/// in a spec function. `chained` links the states from one exchange to the
/// next and to the channel as it is now.
pub struct EmvApduExchanger<CHANNEL: SmartCardChannel> {
    response_apdu_buffer: [u8; EMV_RESPONSE_BUFFER_SIZE],
    smart_card_channel: CHANNEL,
    transcript: Ghost<Seq<Exchange>>,
    states_before: Ghost<Map<int, CHANNEL>>,
    states_after: Ghost<Map<int, CHANNEL>>,
}

/// `after` is `before` with the exchanges made since: the earlier exchanges,
/// and the channel states around them, are kept.
pub open spec fn keeps_history<C: SmartCardChannel>(
    before: EmvApduExchanger<C>,
    after: EmvApduExchanger<C>,
) -> bool {
    &&& after.transcript().len() >= before.transcript().len()
    &&& after.transcript().take(before.transcript().len() as int) == before.transcript()
    &&& forall|j: int|
        0 <= j < before.transcript().len() ==> #[trigger] after.channel_at(j) == before.channel_at(j)
    &&& forall|j: int|
        0 <= j < before.transcript().len() ==> #[trigger] after.channel_after(j)
            == before.channel_after(j)
}

/// `keeps_history` holds of an exchanger and itself.
pub proof fn lemma_keeps_history_refl<C: SmartCardChannel>(x: EmvApduExchanger<C>)
    ensures
        keeps_history(x, x),
{
    assert(x.transcript().take(x.transcript().len() as int) =~= x.transcript());
}

/// Two runs of exchanges, one after the other, make one run: from `start`
/// on, `z` records calls of the channel, each made in the state that the
/// one before it left, and the channel is now what the last one left.
pub proof fn lemma_calls_compose<C: SmartCardChannel>(
    x: EmvApduExchanger<C>,
    y: EmvApduExchanger<C>,
    z: EmvApduExchanger<C>,
    start: int,
)
    requires
        keeps_history(x, y),
        keeps_history(y, z),
        0 <= start <= y.transcript().len(),
        y.chained(start),
        z.chained(y.transcript().len() as int),
        z.transcript().len() > y.transcript().len() ==> z.channel_at(y.transcript().len() as int)
            == y.channel(),
        z.transcript().len() == y.transcript().len() ==> z.channel() == y.channel(),
        forall|i: int|
            #![trigger y.in_run(start, i)]
            y.in_run(start, i) ==> exists|
                channel: &mut C,
                command: CommandApdu,
                buffer: &mut [u8; 264],
                raw: Result<ResponseApdu, ReaderError>,
            |
            {
                &&& *channel == y.channel_at(i)
                &&& spec_command_bytes(command) =~= y.transcript()[i].command
                &&& #[trigger] call_ensures(C::exchange_apdu, (channel, command, buffer), raw)
                &&& y.transcript()[i].response == channel_response_model(raw)
                &&& *final(channel) == y.channel_after(i)
            },
        forall|i: int|
            #![trigger z.in_run(y.transcript().len() as int, i)]
            z.in_run(y.transcript().len() as int, i) ==> exists|
                channel: &mut C,
                command: CommandApdu,
                buffer: &mut [u8; 264],
                raw: Result<ResponseApdu, ReaderError>,
            |
            {
                &&& *channel == z.channel_at(i)
                &&& spec_command_bytes(command) =~= z.transcript()[i].command
                &&& #[trigger] call_ensures(C::exchange_apdu, (channel, command, buffer), raw)
                &&& z.transcript()[i].response == channel_response_model(raw)
                &&& *final(channel) == z.channel_after(i)
            },
    ensures
        keeps_history(x, z),
        z.chained(start),
        forall|i: int|
            #![trigger z.in_run(start, i)]
            z.in_run(start, i) ==> exists|
                channel: &mut C,
                command: CommandApdu,
                buffer: &mut [u8; 264],
                raw: Result<ResponseApdu, ReaderError>,
            |
            {
                &&& *channel == z.channel_at(i)
                &&& spec_command_bytes(command) =~= z.transcript()[i].command
                &&& #[trigger] call_ensures(C::exchange_apdu, (channel, command, buffer), raw)
                &&& z.transcript()[i].response == channel_response_model(raw)
                &&& *final(channel) == z.channel_after(i)
            },
{
    let m = y.transcript().len() as int;
    assert(z.transcript().take(x.transcript().len() as int) =~= z.transcript().take(m).take(
        x.transcript().len() as int,
    ));
    assert forall|i: int| start <= i && i + 1 < z.transcript().len() implies #[trigger] z.channel_after(i)
        == z.channel_at(i + 1) by {
        if i + 1 < m {
            assert(y.channel_after(i) == y.channel_at(i + 1));
        } else if i + 1 == m {
            assert(y.channel_after(i) == y.channel());
        }
    }
    if z.transcript().len() > start {
        let last = z.transcript().len() - 1;
        if last < m {
            assert(y.channel_after(last) == y.channel());
        }
    }
    assert forall|i: int| 0 <= i < m implies #[trigger] z.transcript()[i] == y.transcript()[i] by {
        assert(z.transcript().take(m)[i] == z.transcript()[i]);
    }
    assert forall|i: int| #![trigger z.in_run(start, i)] z.in_run(start, i) implies exists|
        channel: &mut C,
        command: CommandApdu,
        buffer: &mut [u8; 264],
        raw: Result<ResponseApdu, ReaderError>,
    |
        {
            &&& *channel == z.channel_at(i)
            &&& spec_command_bytes(command) =~= z.transcript()[i].command
            &&& #[trigger] call_ensures(C::exchange_apdu, (channel, command, buffer), raw)
            &&& z.transcript()[i].response == channel_response_model(raw)
            &&& *final(channel) == z.channel_after(i)
        } by {
        let e = z.transcript()[i];
        if i < m {
            assert(y.in_run(start, i));
            assert(e == y.transcript()[i]);
            assert(z.channel_at(i) == y.channel_at(i));
            assert(z.channel_after(i) == y.channel_after(i));
        } else {
            assert(z.in_run(m, i));
        }
    }
}

impl<CHANNEL: SmartCardChannel> EmvApduExchanger<CHANNEL> {
    /// The exchanges made so far, oldest first.
    pub closed spec fn transcript(&self) -> Seq<Exchange> {
        self.transcript@
    }

    /// The channel as it is now.
    pub closed spec fn channel(&self) -> CHANNEL {
        self.smart_card_channel
    }

    /// The state of the channel when the `i`-th exchange was made.
    pub closed spec fn channel_at(&self, i: int) -> CHANNEL {
        self.states_before@[i]
    }

    /// The state that the `i`-th exchange left the channel in.
    pub closed spec fn channel_after(&self, i: int) -> CHANNEL {
        self.states_after@[i]
    }

    /// The `i`-th exchange is one of those made from position `start` on.
    pub open spec fn in_run(&self, start: int, i: int) -> bool {
        start <= i < self.transcript().len()
    }

    /// From exchange `start` on, each exchange was made in the state that
    /// the one before it left, and the channel is now in the state that the
    /// last one left: nothing else was done with the channel in between.
    pub open spec fn chained(&self, start: int) -> bool {
        &&& forall|i: int|
            start <= i && i + 1 < self.transcript().len() ==> #[trigger] self.channel_after(i)
                == self.channel_at(i + 1)
        &&& self.transcript().len() > start ==> self.channel_after(self.transcript().len() - 1)
            == self.channel()
    }

    pub fn new(channel: CHANNEL) -> (s: Self)
        ensures
            s.transcript() == Seq::<Exchange>::empty(),
            s.channel() == channel,
    {
        Self {
            response_apdu_buffer: [0u8; 264],
            smart_card_channel: channel,
            transcript: Ghost(Seq::empty()),
            states_before: Ghost(Map::empty()),
            states_after: Ghost(Map::empty()),
        }
    }

    /// Sends `command_apdu` over the channel and returns the response; a
    /// failure of the channel becomes the corresponding card-reading error.
    pub fn exchange(&mut self, command_apdu: CommandApdu) -> (r: Result<ResponseApdu<'_>, error::Error>)
        ensures
            exists|
                channel: &mut CHANNEL,
                buffer: &mut [u8; 264],
                raw: Result<ResponseApdu, ReaderError>,
            |
                {
                    &&& *channel == old(self).channel()
                    &&& *final(channel) == final(self).channel()
                    &&& call_ensures(CHANNEL::exchange_apdu, (channel, command_apdu, buffer), raw)
                    &&& response_model(r) == channel_response_model(raw)
                },
            final(self).transcript() == old(self).transcript().push(
                Exchange { command: spec_command_bytes(command_apdu), response: response_model(r) },
            ),
            final(self).channel_at(old(self).transcript().len() as int) == old(self).channel(),
            final(self).channel_after(old(self).transcript().len() as int) == final(self).channel(),
            keeps_history(*old(self), *final(self)),
            final(self).chained(old(self).transcript().len() as int),
            forall|i: int|
                #![trigger final(self).in_run(old(self).transcript().len() as int, i)]
                final(self).in_run(old(self).transcript().len() as int, i) ==> exists|
                    channel: &mut CHANNEL,
                    command: CommandApdu,
                    buffer: &mut [u8; 264],
                    raw: Result<ResponseApdu, ReaderError>,
                |
                {
                    &&& *channel == final(self).channel_at(i)
                    &&& spec_command_bytes(command) =~= final(self).transcript()[i].command
                    &&& #[trigger] call_ensures(CHANNEL::exchange_apdu, (channel, command, buffer), raw)
                    &&& final(self).transcript()[i].response == channel_response_model(raw)
                    &&& *final(channel) == final(self).channel_after(i)
                },
            r matches Err(e) ==> e != error::Error::UnableToConstructApplicationDescriptor,
    {
        let ghost command_bytes = spec_command_bytes(command_apdu);
        let ghost position = self.transcript@.len() as int;
        let ghost before = self.smart_card_channel;
        let exchange_apdu = CHANNEL::exchange_apdu;
        let result = exchange_apdu(
            &mut self.smart_card_channel,
            command_apdu,
            &mut self.response_apdu_buffer,
        );
        let response_apdu = result.map_err_to_emv_reader_error();
        self.transcript = Ghost(
            self.transcript@.push(
                Exchange { command: command_bytes, response: response_model(response_apdu) },
            ),
        );
        self.states_before = Ghost(self.states_before@.insert(position, before));
        self.states_after = Ghost(self.states_after@.insert(position, self.smart_card_channel));
        assert(self.transcript@.take(position) =~= old(self).transcript@);
        response_apdu
    }
}

} // verus!
