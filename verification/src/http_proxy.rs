//! The proxy monitor component: a bounded list of observed requests,
//! cleared or left on a key press.

use vstd::prelude::*;

use crate::framework::{ExternalEvent, Message, RuntimeEvent};
use crate::keys::KeyInput;

verus! {

/// One observed request: method, target URI, and the arrival time as
/// shown in the list.
#[derive(Debug)]
pub struct HttpRequest {
    pub method: String,
    pub uri: String,
    pub timestamp: String,
}

impl Clone for HttpRequest {
    fn clone(&self) -> (r: Self)
        ensures
            r == *self,
    {
        HttpRequest {
            method: self.method.clone(),
            uri: self.uri.clone(),
            timestamp: self.timestamp.clone(),
        }
    }
}

impl ExternalEvent for HttpRequest {

}

/// The messages the proxy monitor emits.
#[derive(Debug, Clone)]
pub enum ProxyMsg {
    NewRequest,
    Clear,
    Quit,
}

impl Message for ProxyMsg {

}

/// The proxy monitor's state: the observed requests, oldest first, capped
/// at `max_requests`.
pub struct HttpProxy {
    requests: Vec<HttpRequest>,
    should_quit: bool,
    max_requests: usize,
}

impl HttpProxy {
    /// The list never exceeds its bound, which is positive.
    pub closed spec fn wf(&self) -> bool {
        self.requests@.len() <= self.max_requests && self.max_requests > 0
    }

    pub closed spec fn spec_requests(&self) -> Seq<HttpRequest> {
        self.requests@
    }

    pub closed spec fn spec_should_quit(&self) -> bool {
        self.should_quit
    }

    pub closed spec fn spec_max_requests(&self) -> nat {
        self.max_requests as nat
    }

    pub fn new() -> (r: Self)
        ensures
            r.wf(),
            r.spec_requests() == Seq::<HttpRequest>::empty(),
            !r.spec_should_quit(),
            r.spec_max_requests() == 100,
    {
        HttpProxy { requests: Vec::new(), should_quit: false, max_requests: 100 }
    }

    /// A copy of the observed requests, oldest first.
    pub fn requests(&self) -> (r: Vec<HttpRequest>)
        ensures
            r@ == self.spec_requests(),
    {
        let mut out: Vec<HttpRequest> = Vec::new();
        let n = self.requests.len();
        for i in 0..n
            invariant
                n == self.requests@.len(),
                out@ == self.requests@.take(i as int),
        {
            out.push(self.requests[i].clone());
            proof {
                assert(out@ =~= self.requests@.take(i + 1 as int));
            }
        }
        proof {
            assert(self.requests@.take(n as int) =~= self.requests@);
        }
        out
    }

    pub fn request_count(&self) -> (r: usize)
        ensures
            r == self.spec_requests().len(),
    {
        self.requests.len()
    }
}

impl HttpProxy {
    /// `q` or `esc` asks to quit, `c` asks to clear the list; any other
    /// key is ignored.
    pub fn on_key(&mut self, key: KeyInput) -> (r: Option<ProxyMsg>)
        ensures
            *final(self) == *old(self),
            match key {
                KeyInput::Char(c) => if c == 'q' {
                    r is Some && r->0 is Quit
                } else if c == 'c' {
                    r is Some && r->0 is Clear
                } else {
                    r is None
                },
                KeyInput::Esc => r is Some && r->0 is Quit,
                _ => r is None,
            },
    {
        match key {
            KeyInput::Char(c) => {
                if c == 'q' {
                    Some(ProxyMsg::Quit)
                } else if c == 'c' {
                    Some(ProxyMsg::Clear)
                } else {
                    None
                }
            }
            KeyInput::Esc => Some(ProxyMsg::Quit),
            _ => None,
        }
    }

    /// Records one more request at the tail, evicting the oldest once the
    /// list would exceed its bound.
    pub fn on_external_event(&mut self, event: HttpRequest) -> (r: Option<ProxyMsg>)
        requires
            old(self).wf(),
        ensures
            final(self).wf(),
            final(self).spec_max_requests() == old(self).spec_max_requests(),
            final(self).spec_should_quit() == old(self).spec_should_quit(),
            final(self).spec_requests() == if old(self).spec_requests().len() + 1 > old(self).spec_max_requests() {
                old(self).spec_requests().push(event).drop_first()
            } else {
                old(self).spec_requests().push(event)
            },
            r is Some && r->0 is NewRequest,
    {
        self.requests.push(event);
        if self.requests.len() > self.max_requests {
            self.requests.remove(0);
        }
        Some(ProxyMsg::NewRequest)
    }

    /// Reduces one message: a new request needs no further change, a
    /// clear empties the list, a quit marks the application to leave.
    pub fn handle_message(&mut self, msg: ProxyMsg)
        requires
            old(self).wf(),
        ensures
            final(self).wf(),
            final(self).spec_max_requests() == old(self).spec_max_requests(),
            match msg {
                ProxyMsg::NewRequest => *final(self) == *old(self),
                ProxyMsg::Clear => final(self).spec_requests() == Seq::<HttpRequest>::empty()
                    && final(self).spec_should_quit() == old(self).spec_should_quit(),
                ProxyMsg::Quit => final(self).spec_should_quit() && final(self).spec_requests()
                    == old(self).spec_requests(),
            },
    {
        match msg {
            ProxyMsg::NewRequest => {}
            ProxyMsg::Clear => {
                self.requests.clear();
            }
            ProxyMsg::Quit => {
                self.should_quit = true;
            }
        }
    }

    pub fn should_quit(&self) -> (r: bool)
        ensures
            r == self.spec_should_quit(),
    {
        self.should_quit
    }
}

/// The text of one monitor row: the arrival time in brackets, the method,
/// then the URI.
pub open spec fn request_line_text(r: HttpRequest) -> Seq<char> {
    "["@ + r.timestamp@ + "] "@ + r.method@ + " "@ + r.uri@
}

/// Builds the display line for one observed request.
pub fn request_line(req: &HttpRequest) -> (r: String)
    ensures
        r@ == request_line_text(*req),
{
    let mut s = String::new();
    s.append("[");
    s.append(req.timestamp.as_str());
    s.append("] ");
    s.append(req.method.as_str());
    s.append(" ");
    s.append(req.uri.as_str());
    proof {
        assert(s@ =~= request_line_text(*req));
    }
    s
}

impl HttpProxy {
    /// The display lines of the monitor, newest first.
    pub fn render_lines(&self) -> (r: Vec<String>)
        ensures
            r@.len() == self.spec_requests().len(),
            forall|k: int|
                0 <= k < r@.len() ==> r@[k]@ == request_line_text(
                    self.spec_requests()[self.spec_requests().len() - 1 - k],
                ),
    {
        let n = self.requests.len();
        let mut out: Vec<String> = Vec::new();
        let mut i: usize = n;
        while i > 0
            invariant
                n == self.requests@.len(),
                i <= n,
                out@.len() == n - i,
                forall|k: int|
                    0 <= k < out@.len() ==> out@[k]@ == request_line_text(
                        self.requests@[n - 1 - k],
                    ),
            decreases i,
        {
            i = i - 1;
            out.push(request_line(&self.requests[i]));
        }
        out
    }
}

impl HttpProxy {
    /// One iteration of the event-driven runtime, up to the redraw: route
    /// the event, reduce the emitted message, and report whether the loop
    /// should stop. The caller draws once after every event.
    pub fn step(&mut self, event: RuntimeEvent<HttpRequest>) -> (quit: bool)
        requires
            old(self).wf(),
        ensures
            final(self).wf(),
            final(self).spec_max_requests() == old(self).spec_max_requests(),
            quit == final(self).spec_should_quit(),
            match event {
                RuntimeEvent::Key(key) => match key {
                    KeyInput::Char(c) => if c == 'q' {
                        final(self).spec_should_quit() && final(self).spec_requests() == old(self).spec_requests()
                    } else if c == 'c' {
                        final(self).spec_requests() == Seq::<HttpRequest>::empty() && final(self).spec_should_quit() == old(self).spec_should_quit()
                    } else {
                        *final(self) == *old(self)
                    },
                    KeyInput::Esc => final(self).spec_should_quit() && final(self).spec_requests()
                        == old(self).spec_requests(),
                    _ => *final(self) == *old(self),
                },
                RuntimeEvent::External(ev) => {
                    &&& final(self).spec_should_quit() == old(self).spec_should_quit()
                    &&& final(self).spec_requests() == if old(self).spec_requests().len() + 1
                        > old(self).spec_max_requests() {
                        old(self).spec_requests().push(ev).drop_first()
                    } else {
                        old(self).spec_requests().push(ev)
                    }
                },
            },
    {
        let msg = match event {
            RuntimeEvent::Key(key) => self.on_key(key),
            RuntimeEvent::External(ext) => self.on_external_event(ext),
        };
        match msg {
            Some(m) => self.handle_message(m),
            None => {}
        }
        self.should_quit()
    }
}

} // verus!
