use bytes::BytesMut;
use vstd::prelude::*;

use crate::codec::{
    buf_bytes, decode_frame, frame_len, RedisishCodec, ResponseModel, ServerResponse,
};
use crate::command::{Command, CommandModel};
use crate::error::ServerError;
use crate::store::{publish_step, retrieve_step, StoreState, SyncedMailbox};

verus! {

/// A store of `String` payloads seen as a store of texts.
pub open spec fn text_state(s: StoreState<String>) -> StoreState<Seq<char>> {
    StoreState { queue: s.queue.map_values(|m: String| m@), degraded: s.degraded }
}

/// What a call returns, seen through the views.
pub open spec fn reply_model(r: Result<ServerResponse, ServerError>) -> Result<ResponseModel, ServerError> {
    match r {
        Ok(resp) => Ok(resp@),
        Err(e) => Err(e),
    }
}

/// One command applied to the store: the new state and the reply. A store
/// failure becomes the undisclosed `Internal`.
pub open spec fn service_step(s: StoreState<Seq<char>>, c: CommandModel) -> (
    StoreState<Seq<char>>,
    Result<ResponseModel, ServerError>,
) {
    match c {
        CommandModel::Publish(p) => {
            let (s2, res) = publish_step(s, p);
            (s2, if res is Ok { Ok(ResponseModel::Stored) } else { Err(ServerError::Internal) })
        },
        CommandModel::Retrieve => {
            let (s2, res) = retrieve_step(s);
            (
                s2,
                match res {
                    Ok(Some(v)) => Ok(ResponseModel::Value(v)),
                    Ok(None) => Ok(ResponseModel::Empty),
                    Err(_) => Err(ServerError::Internal),
                },
            )
        },
    }
}

/// Serving the buffered input of one connection: every complete frame in
/// turn is decoded and dispatched, until no complete frame is left or one
/// fails. Gives the new store, the replies in request order, the bytes left
/// in the buffer, and the outcome.
pub open spec fn serve_model(s: StoreState<Seq<char>>, b: Seq<u8>) -> (
    StoreState<Seq<char>>,
    Seq<ResponseModel>,
    Seq<u8>,
    Result<(), ServerError>,
)
    decreases b.len(),
{
    match frame_len(b) {
        None => (s, Seq::empty(), b, Ok(())),
        Some(n) => {
            // always holds; stated so that the recursion visibly shrinks `b`
            if 1 <= n <= b.len() {
                let rest = b.subrange(n, b.len() as int);
                match decode_frame(b.subrange(0, n)) {
                    Err(e) => (s, Seq::empty(), rest, Err(e)),
                    Ok(c) => {
                        let (s2, r) = service_step(s, c);
                        match r {
                            Err(e) => (s2, Seq::empty(), rest, Err(e)),
                            Ok(resp) => {
                                let (s3, out, rest2, res) = serve_model(s2, rest);
                                (s3, seq![resp] + out, rest2, res)
                            },
                        }
                    },
                }
            } else {
                (s, Seq::empty(), b, Ok(()))
            }
        },
    }
}

/// Maps each command of one connection to one operation on the mailbox it
/// owns.
pub struct MailboxService<T> {
    mailbox: SyncedMailbox<T>,
}

impl<T> MailboxService<T> {
    /// A service over a new, empty mailbox.
    pub fn new() -> (r: Self)
        ensures
            r.state() == crate::store::fresh_state::<T>(),
    {
        MailboxService { mailbox: SyncedMailbox::new() }
    }

    /// The state of the mailbox behind the service.
    pub closed spec fn state(&self) -> StoreState<T> {
        self.mailbox@
    }

    /// Marks the mailbox as degraded: every later operation fails.
    pub fn degrade(&mut self)
        ensures
            final(self).state() == (StoreState { queue: old(self).state().queue, degraded: true }),
    {
        self.mailbox.degrade();
    }

    /// The number of queued payloads.
    pub fn len(&self) -> (r: usize)
        ensures
            r == self.state().queue.len(),
    {
        self.mailbox.len()
    }
}

impl MailboxService<String> {
    /// Handles one decoded command: `Publish` appends and answers `Stored`,
    /// `Retrieve` answers the removed head or `Empty`. A store failure is
    /// answered with `Internal`.
    pub fn call(&mut self, command: Command) -> (r: Result<ServerResponse, ServerError>)
        ensures
            (text_state(final(self).state()), reply_model(r)) == service_step(
                text_state(old(self).state()),
                command@,
            ),
    {
        match command {
            Command::Publish(message) => {
                let ghost m = message;
                let res = self.mailbox.add_message(message);
                proof {
                    if res is Ok {
                        assert(text_state(self.state()).queue =~= text_state(old(self).state()).queue.push(m@));
                    }
                }
                match res {
                    Ok(()) => Ok(ServerResponse::Stored),
                    Err(_) => Err(ServerError::Internal),
                }
            },
            Command::Retrieve => {
                let res = self.mailbox.retrieve_message();
                proof {
                    if res matches Ok(Some(_)) {
                        assert(text_state(self.state()).queue =~= text_state(old(self).state()).queue.drop_first());
                    }
                }
                match res {
                    Ok(Some(message)) => Ok(ServerResponse::Value(message)),
                    Ok(None) => Ok(ServerResponse::Empty),
                    Err(_) => Err(ServerError::Internal),
                }
            },
        }
    }

    /// Serves what one connection has buffered: decodes each complete frame
    /// in arrival order, dispatches it, and collects the replies in the same
    /// order. Stops at the first frame that fails to decode or to be served,
    /// and leaves a trailing partial frame in `input` for the next call.
    pub fn handle_input(&mut self, codec: &mut RedisishCodec, input: &mut BytesMut) -> (r: (
        Vec<ServerResponse>,
        Result<(), ServerError>,
    ))
        ensures
            ({
                let (s, out, rest, res) = serve_model(
                    text_state(old(self).state()),
                    buf_bytes(*old(input)),
                );
                &&& text_state(final(self).state()) == s
                &&& r.0@.map_values(|x: ServerResponse| x@) == out
                &&& buf_bytes(*final(input)) == rest
                &&& r.1 == res
            }),
    {
        let mut replies: Vec<ServerResponse> = Vec::new();
        loop
            invariant
                ({
                    let (s, out, rest, res) = serve_model(
                        text_state(old(self).state()),
                        buf_bytes(*old(input)),
                    );
                    let (s_now, out_now, rest_now, res_now) = serve_model(
                        text_state(self.state()),
                        buf_bytes(*input),
                    );
                    &&& s == s_now
                    &&& out == replies@.map_values(|x: ServerResponse| x@) + out_now
                    &&& rest == rest_now
                    &&& res == res_now
                }),
            decreases buf_bytes(*input).len(),
        {
            let ghost acc = replies@.map_values(|x: ServerResponse| x@);
            let decoded = codec.decode(input);
            match decoded {
                Ok(None) => {
                    proof {
                        assert(replies@.map_values(|x: ServerResponse| x@) + Seq::empty() =~= acc);
                    }
                    return (replies, Ok(()));
                },
                Err(e) => {
                    proof {
                        assert(replies@.map_values(|x: ServerResponse| x@) + Seq::empty() =~= acc);
                    }
                    return (replies, Err(e));
                },
                Ok(Some(command)) => {
                    let reply = self.call(command);
                    match reply {
                        Err(e) => {
                            proof {
                                assert(replies@.map_values(|x: ServerResponse| x@) + Seq::empty() =~= acc);
                            }
                            return (replies, Err(e));
                        },
                        Ok(resp) => {
                            let ghost rm = resp@;
                            replies.push(resp);
                            proof {
                                assert(replies@.map_values(|x: ServerResponse| x@) =~= acc.push(rm));
                                let (_, out_next, _, _) = serve_model(text_state(self.state()), buf_bytes(*input));
                                assert(acc + (seq![rm] + out_next) =~= acc.push(rm) + out_next);
                            }
                        },
                    }
                },
            }
        }
    }
}

} // verus!
