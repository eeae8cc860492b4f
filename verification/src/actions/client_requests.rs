//! Requests that the server sends to the client.
use crate::actions::context::InitActionContext;
use crate::collections::Keyed;
use crate::effects::{Effect, EffectView, Outbox};
use crate::server::message::{kind_of, ClientRequest, ClientRequestKind, IdView, RequestId};
use vstd::prelude::*;

verus! {

/// What a response of the client sets off: it is handed on if a request with
/// its id has not been answered, and else passed over.
pub open spec fn response_effects(
    outstanding: Map<IdView, ClientRequestKind>,
    id: IdView,
) -> Seq<EffectView> {
    if outstanding.contains_key(id) {
        seq![EffectView::HandleResponse { id, kind: outstanding[id] }]
    } else {
        Seq::empty()
    }
}

impl InitActionContext {
    /// Sends a request to the client, and remembers that an answer is to come.
    pub fn send_request(&mut self, id: RequestId, request: ClientRequest, out: &mut Outbox)
        ensures
            *final(self) == (InitActionContext {
                outstanding_requests: final(self).outstanding_requests,
                ..*old(self)
            }),
            final(self).outstanding_requests@ == old(self).outstanding_requests@.insert(
                id@,
                kind_of(request@),
            ),
            final(out)@ == old(out)@.push(EffectView::SendRequest { id: id@, request: request@ }),
    {
        let _ = self.outstanding_requests.insert(id.duplicate(), request.kind());
        out.push(Effect::SendRequest { id, request });
    }

    /// Hands a response of the client on to whoever sent the request. The
    /// request is answered then: a second response is passed over.
    pub fn handle_request_response(&mut self, id: &RequestId, out: &mut Outbox)
        ensures
            *final(self) == (InitActionContext {
                outstanding_requests: final(self).outstanding_requests,
                ..*old(self)
            }),
            final(self).outstanding_requests@ == old(self).outstanding_requests@.remove(id@),
            final(out)@ == old(out)@ + response_effects(old(self).outstanding_requests@, id@),
    {
        match self.outstanding_requests.remove(id) {
            Some(kind) => {
                out.push(Effect::HandleResponse { id: id.duplicate(), kind });
            },
            None => {},
        }
        assert(out@ =~= old(out)@ + response_effects(old(self).outstanding_requests@, id@));
    }
}

/// The response to a request that was just sent is handed on, and a second
/// response with the same id is not.
pub proof fn answered_exactly_once(
    outstanding: Map<IdView, ClientRequestKind>,
    id: IdView,
    kind: ClientRequestKind,
)
    ensures
        response_effects(outstanding.insert(id, kind), id) == seq![
            EffectView::HandleResponse { id, kind },
        ],
        response_effects(outstanding.insert(id, kind).remove(id), id) == Seq::<
            EffectView,
        >::empty(),
{
}

} // verus!
