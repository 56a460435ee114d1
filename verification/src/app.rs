//! The application shell: the root chain, and what becomes of a request
//! once the chain has run.

use vstd::prelude::*;
use crate::chain::{join, Chain};
use crate::context::{fresh, Context};
use crate::error::{Error, ErrorKind, ErrorView};
use crate::request::Request;
use crate::response::Response;
use vstd::utf8::encode_utf8;

verus! {

/// What an application shares among its requests. Each request gets a state
/// of its own from it.
pub trait Model {
    type State;

    fn new_state(&self) -> Self::State;
}

impl Model for () {
    type State = ();

    fn new_state(&self) -> () {
        ()
    }
}

/// An application: its model, and the chain of its middlewares.
#[derive(Debug)]
pub struct App<M, H> {
    middleware: Chain<H>,
    model: M,
}

impl<M, H> App<M, H> {
    /// The middlewares, outermost first.
    pub closed spec fn layers(&self) -> Seq<H> {
        self.middleware@
    }

    /// The model.
    pub closed spec fn shared(&self) -> M {
        self.model
    }

    /// An application without middlewares: whatever is requested, its chain
    /// does nothing but call the terminal.
    pub fn new(model: M) -> (app: App<M, H>)
        ensures
            app.layers() == Seq::<H>::empty(),
            app.shared() == model,
    {
        App { middleware: Chain::empty(), model }
    }

    /// Adds a middleware inside those that were added before.
    pub fn gate(&mut self, middleware: H) -> (me: &mut Self)
        ensures
            me.layers() == old(self).layers() + seq![middleware],
            me.shared() == old(self).shared(),
            *final(self) == *final(me),
    {
        let mut outer: Chain<H> = Chain::empty();
        core::mem::swap(&mut self.middleware, &mut outer);
        self.middleware = join(outer, Chain::unit(middleware));
        self
    }

    /// [`App::gate`], for a closure.
    pub fn gate_fn(&mut self, middleware: H) -> (me: &mut Self)
        ensures
            me.layers() == old(self).layers() + seq![middleware],
            me.shared() == old(self).shared(),
            *final(self) == *final(me),
    {
        self.gate(middleware)
    }

    /// Adds an end point: a middleware that is meant not to call `next`.
    pub fn end(&mut self, endpoint: H) -> (me: &mut Self)
        ensures
            me.layers() == old(self).layers() + seq![endpoint],
            me.shared() == old(self).shared(),
            *final(self) == *final(me),
    {
        self.gate(endpoint)
    }

    /// The chain of the middlewares.
    pub fn middleware(&self) -> (chain: &Chain<H>)
        ensures
            chain@ == self.layers(),
    {
        &self.middleware
    }

    /// The model.
    pub fn model(&self) -> (model: &M)
        ensures
            *model == self.shared(),
    {
        &self.model
    }
}

/// What one connection needs to serve its requests: the application's chain
/// and model, and the address of the peer.
#[derive(Debug)]
pub struct HttpService<'a, M, H> {
    pub middleware: &'a Chain<H>,
    pub peer_addr: String,
    pub model: &'a M,
}

/// What a request ended in: the response to send, and the error to hand to
/// the transport, if there is one.
#[derive(Debug)]
pub struct Served {
    pub response: Response,
    pub thrown: Option<Error>,
}

/// The body after an error: the message behind what stood there where the
/// error may be shown, and what stood there where it may not.
pub open spec fn failed_body(body: Seq<u8>, e: ErrorView) -> Seq<u8> {
    if e.expose {
        body + encode_utf8(e.message)
    } else {
        body
    }
}

impl<'a, M: Model, H> HttpService<'a, M, H> {
    /// The service of one connection.
    pub fn new(middleware: &'a Chain<H>, peer_addr: String, model: &'a M) -> (service: Self)
        ensures
            service.middleware == middleware,
            service.peer_addr == peer_addr,
            service.model == model,
    {
        HttpService { middleware, peer_addr, model }
    }

    /// The context in which a request runs: as new, with a state that the
    /// model made for this request.
    pub fn context(&self, request: Request) -> (ctx: Context<M::State>)
        ensures
            ctx.request == request,
            ctx.peer_addr@ == self.peer_addr@,
            fresh(ctx),
            call_ensures(M::new_state, (self.model,), ctx.state),
    {
        Context::new(request, self.model.new_state(), self.peer_addr.clone())
    }
}

/// What becomes of a request once its chain has returned, `response` being
/// what the chain made of the response. After success the response goes out
/// as it is. After an error it takes the error's status and, where the error
/// may be shown, its message; an error of the server is then handed on, any
/// other ends here.
pub fn respond(response: Response, outcome: Result<(), Error>) -> (served: Served)
    ensures
        outcome is Ok ==> served.response == response && served.thrown is None,
        outcome matches Err(e) ==> {
            &&& served.response.status == e.status_code
            &&& served.response.headers == response.headers
            &&& served.response.body@ == failed_body(response.body@, e@)
            &&& e.kind == ErrorKind::Server ==> served.thrown == Some(e)
            &&& e.kind != ErrorKind::Server ==> served.thrown is None
        },
{
    let mut response = response;
    match outcome {
        Ok(()) => Served { response, thrown: None },
        Err(e) => {
            response.status = e.status_code;
            if e.expose {
                response.write_str(e.message.as_str());
            }
            if e.need_throw() {
                Served { response, thrown: Some(e) }
            } else {
                Served { response, thrown: None }
            }
        },
    }
}

} // verus!
