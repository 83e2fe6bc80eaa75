//! The command dispatcher: it takes the bytes of the host one by one, and
//! routes each request to the handler for its type.
use vstd::prelude::*;
use crate::decoder::{register_outcome, Decoder, Subscription, Table, MAX_FRAME_BYTES};
use crate::flash::DecoderStorage;
use crate::host_comms::{
    body_begun, frame_outcome, link_step, list_payload, message_payload, subscription_in,
    subscription_plaintext, transfer_started, ConsoleView, DecoderConsole, DecoderError,
    DecoderMessageType, DecoderPacketHeader, LinkEvent, LinkState, CMD_DECODE, CMD_ERROR, CMD_LIST,
    CMD_SUBSCRIBE, FRAME_HEADER_BYTES, SUBSCRIPTION_MESSAGE_BYTES,
};
use crate::led::Led;
use crate::timer::DecoderClock;

verus! {

/// Length of the body of a subscription update: 4 bytes of channel, 8 of
/// start time, 8 of end time, the key, and nonce, tag and signature before
/// them.
pub const SUBSCRIPTION_MESSAGE_SIZE: u16 = 156;

/// Whether a request with this header is taken up.  A request of a type
/// whose body has a fixed length must announce that length; a frame to
/// decode must have room for a timestamp and no room for more than 64
/// bytes of frame.
pub open spec fn request_verdict(header: DecoderPacketHeader) -> Result<(), DecoderError> {
    match header.msg_type {
        DecoderMessageType::List => if header.size == 0 {
            Ok(())
        } else {
            Err(DecoderError::PacketWrongSize)
        },
        DecoderMessageType::Subscribe => if header.size == SUBSCRIPTION_MESSAGE_SIZE {
            Ok(())
        } else {
            Err(DecoderError::PacketWrongSize)
        },
        DecoderMessageType::Decode => if FRAME_HEADER_BYTES <= header.size <= FRAME_HEADER_BYTES
            + MAX_FRAME_BYTES {
            Ok(())
        } else {
            Err(DecoderError::FrameTooLarge)
        },
    }
}

/// Checks the length that a header announces, before any of the body is
/// read.
pub fn check_request(header: &DecoderPacketHeader) -> (verdict: Result<(), DecoderError>)
    ensures
        verdict == request_verdict(*header),
{
    match header.msg_type {
        DecoderMessageType::List => {
            if header.size != 0 {
                return Err(DecoderError::PacketWrongSize);
            }
        },
        DecoderMessageType::Subscribe => {
            if header.size != SUBSCRIPTION_MESSAGE_SIZE {
                return Err(DecoderError::PacketWrongSize);
            }
        },
        DecoderMessageType::Decode => {
            if (header.size as usize) < FRAME_HEADER_BYTES || header.size as usize
                > FRAME_HEADER_BYTES + MAX_FRAME_BYTES {
                return Err(DecoderError::FrameTooLarge);
            }
        },
    }
    Ok(())
}

/// The colour that the status light takes while a request of the type is
/// served.
pub open spec fn request_lights(msg_type: DecoderMessageType) -> (bool, bool, bool) {
    match msg_type {
        DecoderMessageType::List => (false, true, true),
        DecoderMessageType::Subscribe => (true, true, false),
        DecoderMessageType::Decode => (true, false, true),
    }
}

/// The subscription that a plaintext spells out.
pub open spec fn subscription_of(plaintext: Seq<u8>) -> Subscription {
    choose|sub: Subscription| subscription_in(plaintext, sub)
}

/// A plaintext spells out one subscription and no other.
pub proof fn lemma_subscription_of(plaintext: Seq<u8>, sub: Subscription)
    requires
        subscription_in(plaintext, sub),
    ensures
        subscription_of(plaintext) == sub,
{
    let other = subscription_of(plaintext);
    assert(subscription_in(plaintext, other));
    assert(other.channel_key@ =~= sub.channel_key@);
    assert(other.channel_key == sub.channel_key);
}

/// What a subscription update does to the table: the table with the
/// subscription registered, or the error.
pub open spec fn subscribe_outcome(body: Seq<u8>, table: Table, storage: DecoderStorage) -> Result<
    Table,
    DecoderError,
> {
    if body.len() != SUBSCRIPTION_MESSAGE_BYTES {
        Err(DecoderError::PacketWrongSize)
    } else {
        match subscription_plaintext(body) {
            None => Err(DecoderError::FailedDecryption),
            Some(plaintext) => register_outcome(table, subscription_of(plaintext), storage),
        }
    }
}

/// The link once a request has failed.
pub open spec fn faulted(view: ConsoleView, error: DecoderError) -> ConsoleView {
    ConsoleView { state: LinkState::Faulted(error), ..view }
}

/// Takes one received byte at the counter reading `now` and does what it
/// calls for.
///
/// When the byte completes a header, the transaction clock is started and
/// the announced length is checked; a list request is answered at once, the
/// body of any other request is awaited.  When the byte completes a body,
/// the subscription is registered and acknowledged with an empty `S`
/// message, or the frame is decoded and sent back.  An error at any of
/// these points, and an acknowledgment of the host that is none, fails the
/// request: the error is returned, the link takes no further byte, and the
/// error waits to be reported by [`report_error`].
pub fn run_command(
    console: &mut DecoderConsole,
    decoder: &mut Decoder,
    led: &mut Led,
    clock: &mut DecoderClock,
    byte: u8,
    now: u32,
) -> (done: Result<(), DecoderError>)
    requires
        old(console)@.wf(),
        old(decoder).wf(),
    ensures
        final(console)@.wf(),
        final(decoder).wf(),
        old(decoder).persisted() ==> final(decoder).persisted(),
        done == match final(console)@.state {
            LinkState::Faulted(e) => Err::<(), DecoderError>(e),
            _ => Ok(()),
        },
        ({
            let stepped = link_step(old(console)@, byte).0;
            let table = old(decoder).table();
            match link_step(old(console)@, byte).1 {
                LinkEvent::Refused | LinkEvent::Pending => {
                    &&& final(console)@ == stepped
                    &&& *final(decoder) == *old(decoder)
                    &&& *final(led) == *old(led)
                    &&& *final(clock) == *old(clock)
                },
                LinkEvent::BadCommand(_) => {
                    &&& final(console)@ == faulted(stepped, DecoderError::InvalidCommand)
                    &&& *final(decoder) == *old(decoder)
                    &&& *final(led) == *old(led)
                    &&& final(clock).started_at() == now
                },
                LinkEvent::Header(header) => {
                    &&& *final(decoder) == *old(decoder)
                    &&& final(led).lights() == request_lights(header.msg_type)
                    &&& final(clock).started_at() == now
                    &&& final(console)@ == match request_verdict(header) {
                        Err(e) => faulted(stepped, e),
                        Ok(_) => if header.msg_type == DecoderMessageType::List {
                            transfer_started(stepped, CMD_LIST, list_payload(table), false, false)
                        } else {
                            body_begun(stepped, header)
                        },
                    }
                },
                LinkEvent::Body => {
                    &&& *final(led) == *old(led)
                    &&& *final(clock) == *old(clock)
                    &&& match stepped.request.msg_type {
                        DecoderMessageType::Subscribe => match subscribe_outcome(
                            stepped.body,
                            table,
                            old(decoder).storage(),
                        ) {
                            Ok(next) => {
                                &&& final(decoder).table() == next
                                &&& final(decoder).persisted()
                                &&& final(decoder).last_timestamp() == old(decoder).last_timestamp()
                                &&& final(console)@ == transfer_started(
                                    stepped,
                                    CMD_SUBSCRIBE,
                                    Seq::<u8>::empty(),
                                    true,
                                    false,
                                )
                            },
                            Err(e) => {
                                &&& final(decoder).table() == table
                                &&& final(decoder).storage().flash() == old(decoder).storage().flash()
                                &&& final(decoder).last_timestamp() == old(decoder).last_timestamp()
                                &&& final(console)@ == faulted(stepped, e)
                            },
                        },
                        DecoderMessageType::Decode => {
                            &&& final(decoder).table() == table
                            &&& final(decoder).storage() == old(decoder).storage()
                            &&& match frame_outcome(table, old(decoder).last_timestamp(), stepped.body) {
                                Ok((timestamp, frame)) => {
                                    &&& final(decoder).last_timestamp() == Some(timestamp)
                                    &&& final(console)@ == transfer_started(
                                        stepped,
                                        CMD_DECODE,
                                        frame,
                                        false,
                                        false,
                                    )
                                },
                                Err(e) => {
                                    &&& final(decoder).last_timestamp() == old(
                                        decoder,
                                    ).last_timestamp()
                                    &&& final(console)@ == faulted(stepped, e)
                                },
                            }
                        },
                        DecoderMessageType::List => {
                            &&& final(console)@ == stepped
                            &&& *final(decoder) == *old(decoder)
                        },
                    }
                },
                LinkEvent::Sent => {
                    &&& final(console)@ == stepped
                    &&& *final(decoder) == *old(decoder)
                    &&& final(led).lights() == (false, true, false)
                    &&& *final(clock) == *old(clock)
                },
                LinkEvent::AckFailed => {
                    &&& *final(decoder) == *old(decoder)
                    &&& *final(clock) == *old(clock)
                    &&& if stepped.reporting {
                        final(console)@ == stepped && final(led).lights() == (false, true, false)
                    } else {
                        final(console)@ == faulted(stepped, DecoderError::ExpectedAckButGotOther)
                            && *final(led) == *old(led)
                    }
                },
            }
        }),
{
    match console.receive(byte) {
        LinkEvent::Refused => match console.state() {
            LinkState::Faulted(e) => Err(e),
            _ => Ok(()),
        },
        LinkEvent::Pending => Ok(()),
        LinkEvent::BadCommand(_) => {
            clock.start_transaction_timer(now);
            console.fail(DecoderError::InvalidCommand);
            Err(DecoderError::InvalidCommand)
        },
        LinkEvent::Header(header) => {
            clock.start_transaction_timer(now);
            match header.msg_type {
                DecoderMessageType::List => led.cyan(),
                DecoderMessageType::Subscribe => led.yellow(),
                DecoderMessageType::Decode => led.magenta(),
            }
            match check_request(&header) {
                Ok(()) => {},
                Err(e) => {
                    console.fail(e);
                    return Err(e);
                },
            }
            match header.msg_type {
                DecoderMessageType::List => {
                    console.send_list(decoder.get_subscriptions());
                },
                _ => {
                    console.begin_body(header);
                },
            }
            Ok(())
        },
        LinkEvent::Body => {
            match console.request().msg_type {
                DecoderMessageType::Subscribe => {
                    let sub = match console.read_subscription() {
                        Ok(sub) => sub,
                        Err(e) => {
                            console.fail(e);
                            return Err(e);
                        },
                    };
                    proof {
                        lemma_subscription_of(subscription_plaintext(console@.body).unwrap(), sub);
                    }
                    match decoder.register_subscription(sub) {
                        Ok(()) => {},
                        Err(e) => {
                            console.fail(e);
                            return Err(e);
                        },
                    }
                    console.send_empty_payload(CMD_SUBSCRIBE);
                    Ok(())
                },
                DecoderMessageType::Decode => {
                    match console.decode_frame(decoder) {
                        Ok(()) => Ok(()),
                        Err(e) => {
                            console.fail(e);
                            Err(e)
                        },
                    }
                },
                DecoderMessageType::List => Ok(()),
            }
        },
        LinkEvent::Sent => {
            led.green();
            Ok(())
        },
        LinkEvent::AckFailed => {
            if console.is_reporting() {
                led.green();
                Ok(())
            } else {
                console.fail(DecoderError::ExpectedAckButGotOther);
                Err(DecoderError::ExpectedAckButGotOther)
            }
        },
    }
}

/// Reports the error of a failed request, once the transaction time is
/// over.
///
/// Where an error waits and the clock shows at the reading `now` that the
/// time since the header of the request is over, the `E` message with the
/// fixed text of the error begins, and the result is 0.  Where the time is
/// not over, nothing is sent, and the result is the number of ticks that
/// the caller has to let pass before it calls again.  Where no error
/// waits, nothing happens.
pub fn report_error(console: &mut DecoderConsole, clock: &DecoderClock, now: u32) -> (wait: u32)
    requires
        old(console)@.wf(),
    ensures
        final(console)@.wf(),
        match old(console)@.state {
            LinkState::Faulted(e) => {
                &&& wait == clock.remaining(now)
                &&& final(console)@ == if wait == 0 {
                    transfer_started(
                        old(console)@,
                        CMD_ERROR,
                        message_payload(vstd::utf8::encode_utf8(e.text())),
                        false,
                        true,
                    )
                } else {
                    old(console)@
                }
            },
            _ => wait == 0 && final(console)@ == old(console)@,
        },
{
    match console.state() {
        LinkState::Faulted(e) => {
            let wait = clock.wait_for_max_transaction_time(now);
            if wait == 0 {
                e.write_to_console(console);
            }
            wait
        },
        _ => 0,
    }
}

} // verus!
