use vstd::prelude::*;
use vstd::string::StringExecFns;
use crate::config::{Config, ConfigView};

verus! {

/// Decoded body of a successful pairing request
/// (`POST /api/v1/auth/request`).
pub struct AuthResponse {
    pub id: String,
    pub key: String,
}

/// Decoded body of a status check (`GET /api/v1/auth/check/{id}`).
pub struct AuthCheckResponse {
    pub message: String,
}

/// Why a transport call against a host failed: its bounded timeout
/// elapsed, or the transport failed some other way. Both are
/// transient; they are told apart only for reporting.
#[derive(Clone, Copy, PartialEq, Eq, Structural, Debug)]
pub enum TransportError {
    TimedOut,
    Other,
}

/// Classification of one host for the current cycle.
#[derive(Clone, Copy, PartialEq, Eq, Structural, Debug)]
pub enum ProbeOutcome {
    Reachable,
    Unreachable(TransportError),
}

/// How a probe's transport outcome is classified: an answer of any
/// kind means the host is reachable; a failure carries its reason.
pub open spec fn spec_probe_outcome(r: Result<(), TransportError>) -> ProbeOutcome {
    match r {
        Ok(()) => ProbeOutcome::Reachable,
        Err(e) => ProbeOutcome::Unreachable(e),
    }
}

/// Classify what one probe's transport call reported. A probe that
/// hit its timeout is `Unreachable` with the timeout reason — never
/// left undecided — and a probe failure is never fatal: it only marks
/// this one host unavailable for the cycle.
pub fn classify_probe(result: &Result<(), TransportError>) -> (o: ProbeOutcome)
    ensures
        o == spec_probe_outcome(*result),
        result == Err::<(), TransportError>(TransportError::TimedOut)
            ==> o == ProbeOutcome::Unreachable(TransportError::TimedOut),
{
    match result {
        Ok(()) => ProbeOutcome::Reachable,
        Err(e) => ProbeOutcome::Unreachable(*e),
    }
}

/// The hosts classified reachable this cycle, in configuration order.
pub open spec fn spec_available_hosts(hosts: Seq<Seq<char>>, outcomes: Seq<ProbeOutcome>) -> Seq<
    Seq<char>,
>
    decreases hosts.len(),
{
    if hosts.len() == 0 || outcomes.len() == 0 {
        Seq::empty()
    } else if outcomes.last() is Reachable {
        spec_available_hosts(hosts.drop_last(), outcomes.drop_last()).push(hosts.last())
    } else {
        spec_available_hosts(hosts.drop_last(), outcomes.drop_last())
    }
}

/// Gather the Available Hosts Set of the cycle: exactly the hosts
/// whose probe outcome is `Reachable`, in configuration order.
pub fn collect_available(hosts: &Vec<String>, outcomes: &Vec<ProbeOutcome>) -> (avail: Vec<String>)
    requires
        hosts@.len() == outcomes@.len(),
    ensures
        avail@.map_values(|h: String| h@) == spec_available_hosts(
            hosts@.map_values(|h: String| h@),
            outcomes@,
        ),
{
    let ghost all_hosts: Seq<Seq<char>> = hosts@.map_values(|h: String| h@);
    let mut avail: Vec<String> = Vec::new();
    let mut i: usize = 0;
    while i < hosts.len()
        invariant
            i <= hosts@.len(),
            hosts@.len() == outcomes@.len(),
            all_hosts == hosts@.map_values(|h: String| h@),
            avail@.map_values(|h: String| h@) == spec_available_hosts(
                all_hosts.take(i as int),
                outcomes@.take(i as int),
            ),
        decreases hosts@.len() - i,
    {
        proof {
            assert(all_hosts.take(i + 1).drop_last() =~= all_hosts.take(i as int));
            assert(outcomes@.take(i + 1).drop_last() =~= outcomes@.take(i as int));
        }
        if matches!(outcomes[i], ProbeOutcome::Reachable) {
            avail.push(hosts[i].clone());
            proof {
                assert(avail@.map_values(|h: String| h@) =~= spec_available_hosts(
                    all_hosts.take(i + 1),
                    outcomes@.take(i + 1),
                ));
            }
        }
        i = i + 1;
    }
    proof {
        assert(all_hosts.take(hosts@.len() as int) =~= all_hosts);
        assert(outcomes@.take(outcomes@.len() as int) =~= outcomes@);
    }
    avail
}

/// `http://{host}` — the bare root fetched purely to probe
/// reachability.
pub fn probe_url(host: &String) -> (url: String)
    ensures
        url@ == "http://"@ + host@,
{
    let mut url: String = "http://".to_owned();
    url.append(host.as_str());
    url
}

/// `http://{host}/api/v1/auth/request` — where a new credential is
/// requested.
pub fn auth_request_url(host: &String) -> (url: String)
    ensures
        url@ == "http://"@ + host@ + "/api/v1/auth/request"@,
{
    let mut url: String = "http://".to_owned();
    url.append(host.as_str());
    url.append("/api/v1/auth/request");
    url
}

/// `http://{host}/api/v1/auth/check/{id}` — where a credential's
/// status is polled.
pub fn auth_check_url(host: &String, id: &String) -> (url: String)
    ensures
        url@ == "http://"@ + host@ + "/api/v1/auth/check/"@ + id@,
{
    let mut url: String = "http://".to_owned();
    url.append(host.as_str());
    url.append("/api/v1/auth/check/");
    url.append(id.as_str());
    url
}

/// Device-facing operations are parameterized by the configuration;
/// the transport itself lives outside the library.
pub struct Api {
    config: Config,
}

impl View for Api {
    type V = ConfigView;

    closed spec fn view(&self) -> ConfigView {
        self.config@
    }
}

impl Api {
    pub fn new(config: Config) -> (api: Api)
        ensures
            api@ == config@,
    {
        Api { config }
    }

    /// The identity a pairing request must carry in its body:
    /// the configured application and user names, in that order.
    pub fn pairing_params(&self) -> (r: (String, String))
        ensures
            r.0@ == self@.application,
            r.1@ == self@.appuser,
    {
        (self.config.application().clone(), self.config.appuser().clone())
    }
}

} // verus!
