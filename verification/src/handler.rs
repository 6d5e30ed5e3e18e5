//! The listener's configuration: bind address, port and worker count,
//! carried as an explicit value with no global state.  Binding, accepting
//! and dispatching connections is the transport caller's work.

use vstd::prelude::*;

verus! {

/// Configuration for the listener loop.
#[derive(Debug)]
pub struct HttpHandler {
    port: u16,
    ip_address: String,
    worker_num: u8,
}

/// The mathematical shape of an [`HttpHandler`].
#[verifier::ext_equal]
pub struct HandlerView {
    pub port: u16,
    pub ip_address: Seq<char>,
    pub worker_num: u8,
}

impl View for HttpHandler {
    type V = HandlerView;

    closed spec fn view(&self) -> HandlerView {
        HandlerView {
            port: self.port,
            ip_address: self.ip_address@,
            worker_num: self.worker_num,
        }
    }
}

impl HttpHandler {
    /// The default configuration: every address, port 80, one worker.
    pub fn new() -> (r: Self)
        ensures
            r@ == (HandlerView { port: 80, ip_address: "0.0.0.0"@, worker_num: 1 }),
    {
        let r = HttpHandler { port: 80, ip_address: "0.0.0.0".to_owned(), worker_num: 1 };
        proof {
            assert(r@ =~~= (HandlerView { port: 80, ip_address: "0.0.0.0"@, worker_num: 1 }));
        }
        r
    }

    /// Set the port to bind.
    pub fn port(&mut self, port_number: u16)
        ensures
            final(self)@ == (HandlerView { port: port_number, ..old(self)@ }),
    {
        self.port = port_number;
    }

    /// Set the address to bind.
    pub fn ip_address(&mut self, ip_address: &str)
        ensures
            final(self)@ == (HandlerView { ip_address: ip_address@, ..old(self)@ }),
    {
        self.ip_address = ip_address.to_owned();
    }

    /// Set the worker count.
    pub fn worker_num(&mut self, worker_num: u8)
        ensures
            final(self)@ == (HandlerView { worker_num: worker_num, ..old(self)@ }),
    {
        self.worker_num = worker_num;
    }

    /// The port to bind.
    pub fn get_port(&self) -> (r: u16)
        ensures
            r == self@.port,
    {
        self.port
    }

    /// The address to bind.
    pub fn get_ip_address(&self) -> (r: &String)
        ensures
            r@ == self@.ip_address,
    {
        &self.ip_address
    }

    /// The worker count.
    pub fn get_worker_num(&self) -> (r: u8)
        ensures
            r == self@.worker_num,
    {
        self.worker_num
    }
}

} // verus!
