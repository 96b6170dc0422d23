//! Whether a host can be reached.
use vstd::prelude::*;
use crate::app::{TestStatus, TestStatusView};
use crate::model::{opt_text, Host};
use crate::sftp::host_address;
use crate::text::{concat3, decimal, decimal_string};

verus! {

/// What came of looking up a host, or of trying one of its addresses.
#[derive(Debug)]
pub enum ProbeReply {
    /// The name could not be looked up, and what was said about it.
    Unresolved(String),
    /// An address took the connection.
    Connected,
    /// An address did not take the connection, and what was said about it.
    Refused(String),
    /// There are no more addresses.
    NoMore,
}

/// A check whether a host can be reached: its addresses are tried in turn.
#[derive(Debug)]
pub struct Probe {
    port: u16,
    last_error: Option<String>,
}

/// The model of a check.
#[verifier::ext_equal]
pub struct ProbeView {
    pub port: u16,
    pub last_error: Option<Seq<char>>,
}

impl View for Probe {
    type V = ProbeView;

    closed spec fn view(&self) -> ProbeView {
        ProbeView { port: self.port, last_error: opt_text(self.last_error) }
    }
}

/// What is said of a port that took a connection.
pub open spec fn port_is_open(port: u16) -> TestStatusView {
    TestStatusView::Done {
        success: true,
        message: "Port "@ + decimal(port as nat) + " is open"@,
    }
}

impl ProbeView {
    /// The check after a reply, and how it ended if it did. Without an end the
    /// next address is tried.
    pub open spec fn after(self, reply: ProbeReply) -> (ProbeView, Option<TestStatusView>) {
        match reply {
            ProbeReply::Unresolved(error) => (
                self,
                Some(TestStatusView::Done { success: false, message: error@ }),
            ),
            ProbeReply::Connected => (self, Some(port_is_open(self.port))),
            ProbeReply::Refused(error) => (
                ProbeView { last_error: Some(error@), ..self },
                None,
            ),
            ProbeReply::NoMore => (
                self,
                Some(
                    TestStatusView::Done {
                        success: false,
                        message: match self.last_error {
                            Some(error) => error,
                            None => "No addresses found"@,
                        },
                    },
                ),
            ),
        }
    }

    /// How the check ends that tries addresses until one takes the connection.
    pub open spec fn outcome(self, attempts: Seq<Result<(), Seq<char>>>) -> TestStatusView
        decreases attempts.len(),
    {
        if attempts.len() == 0 {
            TestStatusView::Done {
                success: false,
                message: match self.last_error {
                    Some(error) => error,
                    None => "No addresses found"@,
                },
            }
        } else {
            match attempts[0] {
                Ok(_) => port_is_open(self.port),
                Err(error) => (ProbeView { last_error: Some(error), ..self }).outcome(
                    attempts.drop_first(),
                ),
            }
        }
    }
}

impl Probe {
    /// A check of a host, and the address to look up for it.
    pub fn new(host: &Host) -> (started: (Self, String))
        ensures
            started.0@ == (ProbeView { port: host@.port, last_error: None }),
            started.1@ == host@.hostname + ":"@ + decimal(host@.port as nat),
    {
        (Probe { port: host.port, last_error: None }, host_address(host))
    }

    /// Records a reply. Returns how the check ended, if it did.
    pub fn step(&mut self, reply: ProbeReply) -> (status: Option<TestStatus>)
        ensures
            final(self)@ == old(self)@.after(reply).0,
            match status {
                Some(status) => old(self)@.after(reply).1 == Some(status@),
                None => old(self)@.after(reply).1 is None,
            },
    {
        match reply {
            ProbeReply::Unresolved(error) => {
                Some(TestStatus::Done { success: false, message: error })
            },
            ProbeReply::Connected => {
                let port = decimal_string(self.port as u64);
                let message = concat3("Port ", port.as_str(), " is open");
                Some(TestStatus::Done { success: true, message })
            },
            ProbeReply::Refused(error) => {
                self.last_error = Some(error);
                None
            },
            ProbeReply::NoMore => {
                let message = match &self.last_error {
                    Some(error) => error.clone(),
                    None => "No addresses found".to_string(),
                };
                Some(TestStatus::Done { success: false, message })
            },
        }
    }
}

/// A host is reachable exactly if one of its addresses takes the connection, and
/// otherwise the last error is told.
pub proof fn lemma_reachable_by_any_address(
    probe: ProbeView,
    attempts: Seq<Result<(), Seq<char>>>,
)
    ensures
        probe.outcome(attempts) == port_is_open(probe.port) <==> exists|i: int|
            0 <= i < attempts.len() && #[trigger] attempts[i] is Ok,
        (forall|i: int| 0 <= i < attempts.len() ==> #[trigger] attempts[i] is Err)
            && attempts.len() > 0 ==> probe.outcome(attempts) == (TestStatusView::Done {
            success: false,
            message: attempts.last()->Err_0,
        }),
    decreases attempts.len(),
{
    if attempts.len() > 0 && attempts[0] is Err {
        let next = ProbeView { last_error: Some(attempts[0]->Err_0), ..probe };
        let rest = attempts.drop_first();
        lemma_reachable_by_any_address(next, rest);
        assert forall|i: int| 0 <= i < rest.len() implies rest[i] == attempts[i + 1] by {}
        if exists|i: int| 0 <= i < attempts.len() && #[trigger] attempts[i] is Ok {
            let i = choose|i: int| 0 <= i < attempts.len() && #[trigger] attempts[i] is Ok;
            assert(rest[i - 1] is Ok);
        }
        if exists|i: int| 0 <= i < rest.len() && #[trigger] rest[i] is Ok {
            let i = choose|i: int| 0 <= i < rest.len() && #[trigger] rest[i] is Ok;
            assert(attempts[i + 1] is Ok);
        }
        if rest.len() > 0 {
            assert(rest.last() == attempts.last());
        }
    }
}

} // verus!
