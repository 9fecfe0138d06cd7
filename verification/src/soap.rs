use vstd::prelude::*;
use crate::text::{push_str, from_chars};

verus! {

/// An HTTP POST that carries a SOAP call: where it goes, its `SOAPAction` and
/// `Content-Type` headers, and its body.
#[derive(Debug, Clone)]
pub struct SoapRequest {
    pub url: String,
    pub soap_action: String,
    pub content_type: String,
    pub body: String,
}

pub struct SoapRequestView {
    pub url: Seq<char>,
    pub soap_action: Seq<char>,
    pub content_type: Seq<char>,
    pub body: Seq<char>,
}

impl View for SoapRequest {
    type V = SoapRequestView;

    open spec fn view(&self) -> SoapRequestView {
        SoapRequestView {
            url: self.url@,
            soap_action: self.soap_action@,
            content_type: self.content_type@,
            body: self.body@,
        }
    }
}

/// One request of a sequence, and whether a failure to send it ends the sequence with an
/// error (`true`) or is passed over (`false`).
#[derive(Debug, Clone)]
pub struct SoapStep {
    pub request: SoapRequest,
    pub must_succeed: bool,
}

pub struct SoapStepView {
    pub request: SoapRequestView,
    pub must_succeed: bool,
}

impl View for SoapStep {
    type V = SoapStepView;

    open spec fn view(&self) -> SoapStepView {
        SoapStepView { request: self.request@, must_succeed: self.must_succeed }
    }
}

/// What to do next while a sequence of steps is sent: send step `i`, stop having done them
/// all, or stop with the error of the step just sent.
#[derive(Debug, Clone, Copy, PartialEq, Eq, Structural)]
pub enum StepAction {
    Send(usize),
    Finish,
    Fail,
}

/// How a sequence starts: with its first step, or done at once where it is empty.
pub open spec fn first_action(steps: Seq<SoapStepView>) -> StepAction {
    if steps.len() > 0 {
        StepAction::Send(0)
    } else {
        StepAction::Finish
    }
}

/// What follows sending step `index` (`sent` says whether the send succeeded): a failed step
/// that must succeed ends the sequence with its error; otherwise the next step is sent, or
/// the sequence is done after its last.
pub open spec fn action_after(steps: Seq<SoapStepView>, index: int, sent: bool) -> StepAction {
    if index >= steps.len() {
        StepAction::Finish
    } else if !sent && steps[index].must_succeed {
        StepAction::Fail
    } else if index + 1 < steps.len() {
        StepAction::Send((index + 1) as usize)
    } else {
        StepAction::Finish
    }
}

/// The first thing to do for a sequence of steps.
pub fn first_step(steps: &Vec<SoapStep>) -> (res: StepAction)
    ensures
        res == first_action(steps@.map_values(|s: SoapStep| s@)),
{
    if steps.len() > 0 {
        StepAction::Send(0)
    } else {
        StepAction::Finish
    }
}

/// What to do after sending step `index` of a sequence.
pub fn after_step(steps: &Vec<SoapStep>, index: usize, sent: bool) -> (res: StepAction)
    ensures
        res == action_after(steps@.map_values(|s: SoapStep| s@), index as int, sent),
{
    let ghost sv = steps@.map_values(|s: SoapStep| s@);
    if index >= steps.len() {
        StepAction::Finish
    } else {
        assert(sv[index as int] == steps@[index as int]@);
        if !sent && steps[index].must_succeed {
            StepAction::Fail
        } else if index + 1 < steps.len() {
            StepAction::Send(index + 1)
        } else {
            StepAction::Finish
        }
    }
}

/// The content type of every SOAP request.
pub open spec fn xml_content_type() -> Seq<char> {
    "text/xml; charset=utf-8"@
}

/// The URL of a control path on a device at `ip`: `http://{ip}:1400{path}`.
pub open spec fn device_url(ip: Seq<char>, path: Seq<char>) -> Seq<char> {
    "http://"@ + ip + ":1400"@ + path
}

/// A UPnP `SOAPAction` header value: the service type and action, in double quotes.
pub open spec fn upnp_action(service_type: Seq<char>, action: Seq<char>) -> Seq<char> {
    "\""@ + service_type + "#"@ + action + "\""@
}

/// Builds a request from its parts.
pub fn make_request(url: String, soap_action: String, body: String) -> (res: SoapRequest)
    ensures
        res@ == (SoapRequestView {
            url: url@,
            soap_action: soap_action@,
            content_type: xml_content_type(),
            body: body@,
        }),
{
    SoapRequest { url, soap_action, content_type: "text/xml; charset=utf-8".to_string(), body }
}

/// `http://{ip}:1400{path}`.
pub fn device_url_exec(ip: &str, path: &str) -> (res: String)
    ensures
        res@ == device_url(ip@, path@),
{
    let mut out: Vec<char> = Vec::new();
    push_str(&mut out, "http://");
    push_str(&mut out, ip);
    push_str(&mut out, ":1400");
    push_str(&mut out, path);
    assert(out@ =~= device_url(ip@, path@));
    from_chars(&out)
}

/// `"{service_type}#{action}"`, quotes included.
pub fn upnp_action_exec(service_type: &str, action: &str) -> (res: String)
    ensures
        res@ == upnp_action(service_type@, action@),
{
    let mut out: Vec<char> = Vec::new();
    push_str(&mut out, "\"");
    push_str(&mut out, service_type);
    push_str(&mut out, "#");
    push_str(&mut out, action);
    push_str(&mut out, "\"");
    assert(out@ =~= upnp_action(service_type@, action@));
    from_chars(&out)
}

} // verus!
