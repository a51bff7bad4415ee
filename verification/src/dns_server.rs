//! The DNS side of the accelerator: what to do with a received query (answer
//! it from the scanner's pool, forward it upstream, or drop it), the response
//! that answers it, and the GitHub addresses learnt from upstream answers.

use vstd::prelude::*;
use trust_dns_proto::op::{Message, MessageType, OpCode, Query};
use trust_dns_proto::rr::{DNSClass, Name, RData, Record};
use trust_dns_proto::rr::rdata::A;
use trust_dns_proto::serialize::binary::BinDecodable;
use crate::domains::{spec_classify_domain, classify_domain, spec_strip_root_dot, strip_root_dot};
use crate::scanner::{Scanner, spec_ipv4_text, ipv4_text};
use crate::github_traffic_monitor::GitHubTrafficMonitor;

verus! {

// ---------------------------------------------------------------------------
// Messages as plain values
// ---------------------------------------------------------------------------

/// Whether a message asks or answers.
#[derive(Clone, Copy, Debug, PartialEq, Eq, Structural)]
pub enum DnsMessageType {
    Query,
    Response,
}

/// One question of a message: the queried name as text (a fully qualified
/// name ends with a dot), the name's labels as they stand on the wire, its
/// record type code and its class code.
pub struct DnsQuestion {
    pub name: String,
    pub labels: Vec<Vec<u8>>,
    pub record_type: u16,
    pub dns_class: u16,
}

/// The bytes of each label of a name.
pub open spec fn label_views(l: Seq<Vec<u8>>) -> Seq<Seq<u8>> {
    l.map_values(|x: Vec<u8>| x@)
}

impl View for DnsQuestion {
    type V = (Seq<char>, Seq<Seq<u8>>, u16, u16);

    open spec fn view(&self) -> (Seq<char>, Seq<Seq<u8>>, u16, u16) {
        (self.name@, label_views(self.labels@), self.record_type, self.dns_class)
    }
}

/// A copy of a name's labels.
pub fn copy_labels(v: &Vec<Vec<u8>>) -> (r: Vec<Vec<u8>>)
    ensures
        label_views(r@) == label_views(v@),
{
    let mut r: Vec<Vec<u8>> = Vec::new();
    let mut i: usize = 0;
    while i < v.len()
        invariant
            i <= v.len(),
            label_views(r@) == label_views(v@).subrange(0, i as int),
        decreases v.len() - i,
    {
        let src = &v[i];
        let mut l: Vec<u8> = Vec::new();
        let mut j: usize = 0;
        while j < src.len()
            invariant
                j <= src.len(),
                l@ == src@.subrange(0, j as int),
            decreases src.len() - j,
        {
            l.push(src[j]);
            assert(l@ =~= src@.subrange(0, j + 1));
            j = j + 1;
        }
        assert(l@ =~= src@);
        let ghost before = r@;
        r.push(l);
        assert(label_views(r@) =~= label_views(before).push(v@[i as int]@));
        assert(label_views(v@).subrange(0, i + 1) =~= label_views(v@).subrange(0, i as int).push(v@[i as int]@));
        i = i + 1;
    }
    assert(label_views(v@).subrange(0, v.len() as int) =~= label_views(v@));
    r
}

/// The parts of a received message that the server reads.
pub struct DnsQuery {
    pub id: u16,
    pub message_type: DnsMessageType,
    pub op_code: u8,
    pub recursion_desired: bool,
    pub questions: Vec<DnsQuestion>,
}

/// The values of a received message.
pub struct DnsQueryView {
    pub id: u16,
    pub message_type: DnsMessageType,
    pub op_code: u8,
    pub recursion_desired: bool,
    pub questions: Seq<(Seq<char>, Seq<Seq<u8>>, u16, u16)>,
}

/// The values of a list of questions.
pub open spec fn question_views(q: Seq<DnsQuestion>) -> Seq<(Seq<char>, Seq<Seq<u8>>, u16, u16)> {
    q.map_values(|x: DnsQuestion| x@)
}

impl View for DnsQuery {
    type V = DnsQueryView;

    open spec fn view(&self) -> DnsQueryView {
        DnsQueryView {
            id: self.id,
            message_type: self.message_type,
            op_code: self.op_code,
            recursion_desired: self.recursion_desired,
            questions: question_views(self.questions@),
        }
    }
}

/// An answer record carrying an IPv4 address, for the name with these labels.
pub struct DnsAnswerA {
    pub labels: Vec<Vec<u8>>,
    pub ttl: u32,
    pub ip: [u8; 4],
}

impl View for DnsAnswerA {
    type V = (Seq<Seq<u8>>, u32, [u8; 4]);

    open spec fn view(&self) -> (Seq<Seq<u8>>, u32, [u8; 4]) {
        (label_views(self.labels@), self.ttl, self.ip)
    }
}

/// A response to send back.
pub struct DnsResponse {
    pub id: u16,
    pub op_code: u8,
    pub recursion_desired: bool,
    pub recursion_available: bool,
    pub response_code: u16,
    pub questions: Vec<DnsQuestion>,
    pub answers: Vec<DnsAnswerA>,
}

/// The values of a response to send back.
pub struct DnsResponseView {
    pub id: u16,
    pub op_code: u8,
    pub recursion_desired: bool,
    pub recursion_available: bool,
    pub response_code: u16,
    pub questions: Seq<(Seq<char>, Seq<Seq<u8>>, u16, u16)>,
    pub answers: Seq<(Seq<Seq<u8>>, u32, [u8; 4])>,
}

impl View for DnsResponse {
    type V = DnsResponseView;

    open spec fn view(&self) -> DnsResponseView {
        DnsResponseView {
            id: self.id,
            op_code: self.op_code,
            recursion_desired: self.recursion_desired,
            recursion_available: self.recursion_available,
            response_code: self.response_code,
            questions: question_views(self.questions@),
            answers: self.answers@.map_values(|a: DnsAnswerA| a@),
        }
    }
}

/// The values of an optional received message.
pub open spec fn query_opt_view(q: Option<DnsQuery>) -> Option<DnsQueryView> {
    match q {
        Some(m) => Some(m@),
        None => None,
    }
}

/// The values of an optional byte buffer.
pub open spec fn bytes_opt_view(b: Option<Vec<u8>>) -> Option<Seq<u8>> {
    match b {
        Some(v) => Some(v@),
        None => None,
    }
}

// ---------------------------------------------------------------------------
// The wire format, as trust-dns reads and writes it
// ---------------------------------------------------------------------------

/// What `Message::from_bytes` reads from a buffer, taken apart into its header
/// fields and questions; none when the buffer is not a valid message.
pub uninterp spec fn spec_decode_dns_query(bytes: Seq<u8>) -> Option<DnsQueryView>;

/// What `Message::to_vec` writes for a message with these values; none when
/// trust-dns refuses it.
pub uninterp spec fn spec_encode_dns_response(r: DnsResponseView) -> Option<Seq<u8>>;

/// What `Message::from_vec` reads from an upstream reply, reduced to its
/// answer records: the address of each A record, none for a record of any
/// other kind; none when the buffer is not a valid message.
pub uninterp spec fn spec_decode_answer_addresses(bytes: Seq<u8>) -> Option<Seq<Option<[u8; 4]>>>;

/// Reads a query with trust-dns's `Message::from_bytes`: the message id, type,
/// op code and recursion-desired flag, and for each question the name as
/// `Name::to_utf8` writes it, the name's labels as `Name::iter` gives them,
/// and its type and class codes. The result is named, not described.
#[verifier::external_body]
fn decode_dns_query(bytes: &[u8]) -> (r: Option<DnsQuery>)
    ensures
        query_opt_view(r) == spec_decode_dns_query(bytes@),
{
    let m = Message::from_bytes(bytes).ok()?;
    let questions = m.queries().iter().map(|q| DnsQuestion {
        name: q.name().to_utf8(), labels: q.name().iter().map(Vec::from).collect(),
        record_type: q.query_type().into(), dns_class: q.query_class().into(),
    }).collect();
    let message_type = match m.message_type() {
        MessageType::Query => DnsMessageType::Query,
        MessageType::Response => DnsMessageType::Response
    };
    Some(DnsQuery { id: m.id(), message_type, op_code: m.op_code().into(),
        recursion_desired: m.recursion_desired(), questions })
}

/// Writes a response with trust-dns's `Message::to_vec`, after building a
/// message of type response from these fields (`Message::error_msg` sets the
/// type, id, op code and response code; names are rebuilt from their raw
/// labels with `Name::from_labels`, bytes and case kept). The result is
/// named, not described.
#[verifier::external_body]
fn encode_dns_response(r: &DnsResponse) -> (out: Option<Vec<u8>>)
    ensures
        bytes_opt_view(out) == spec_encode_dns_response(r@),
{
    let mut m = Message::error_msg(r.id, OpCode::from_u8(r.op_code).ok()?, r.response_code.into());
    m.set_recursion_desired(r.recursion_desired).set_recursion_available(r.recursion_available);
    for q in &r.questions {
        let name = Name::from_labels(q.labels.clone()).ok()?;
        m.add_query(Query::query(name, q.record_type.into()).set_query_class(DNSClass::from_u16(q.dns_class).ok()?).clone());
    }
    for a in &r.answers {
        m.add_answer(Record::from_rdata(Name::from_labels(a.labels.clone()).ok()?, a.ttl, RData::A(A(a.ip.into()))));
    }
    m.to_vec().ok()
}

/// Reads an upstream reply with trust-dns's `Message::from_vec` and lists its
/// answer records: the address of each A record, none for any other record.
/// The result is named, not described.
#[verifier::external_body]
fn decode_answer_addresses(bytes: &[u8]) -> (r: Option<Vec<Option<[u8; 4]>>>)
    ensures
        match r {
            Some(v) => spec_decode_answer_addresses(bytes@) == Some(v@),
            None => spec_decode_answer_addresses(bytes@) is None,
        },
{
    let m = Message::from_vec(bytes).ok()?;
    Some(m.answers().iter().map(|a| match a.data() {
        Some(RData::A(ip)) => Some(ip.0.octets()),
        _ => None,
    }).collect())
}

// ---------------------------------------------------------------------------
// Deciding what to do with a query
// ---------------------------------------------------------------------------

/// Response code of a successful answer (NOERROR).
pub const NO_ERROR: u16 = 0;

/// Time-to-live, in seconds, of an answer handed out from the pool.
pub const ANSWER_TTL: u32 = 60;

/// What the server does with a decoded query.
pub enum DnsPlan {
    /// Nothing is sent back.
    Ignore,
    /// This response is sent back; `domain` is the queried name.
    Respond { response: DnsResponse, domain: String },
    /// The query goes to the upstream server; `github` says whether the name
    /// is a GitHub one, whose upstream addresses are then learnt.
    Forward { domain: String, github: bool },
}

/// The values of a plan.
pub enum DnsPlanView {
    Ignore,
    Respond(DnsResponseView, Seq<char>),
    Forward(Seq<char>, bool),
}

impl View for DnsPlan {
    type V = DnsPlanView;

    open spec fn view(&self) -> DnsPlanView {
        match self {
            DnsPlan::Ignore => DnsPlanView::Ignore,
            DnsPlan::Respond { response, domain } => DnsPlanView::Respond(response@, domain@),
            DnsPlan::Forward { domain, github } => DnsPlanView::Forward(domain@, *github),
        }
    }
}

/// The answer to query `q` that hands out `ip`: the query's id, op code and
/// recursion-desired flag, recursion available, no error, the query's
/// questions, and one A record for the first question's name.
pub open spec fn spec_optimized_response(q: DnsQueryView, ip: [u8; 4]) -> DnsResponseView {
    DnsResponseView {
        id: q.id,
        op_code: q.op_code,
        recursion_desired: q.recursion_desired,
        recursion_available: true,
        response_code: NO_ERROR,
        questions: q.questions,
        answers: seq![(q.questions[0].1, ANSWER_TTL, ip)],
    }
}

/// What the server does with a decoded query: nothing for an undecodable
/// message, one that is not a query, or one without questions; otherwise,
/// for the first question's name, an answer from the pool when the name is
/// accelerated and the pool has a usable address for it (both read without
/// the name's trailing root dot), else forwarding. The name handed on for
/// the statistics is the queried name as decoded.
pub open spec fn spec_dns_plan(s: &Scanner, q: Option<DnsQueryView>) -> DnsPlanView {
    match q {
        None => DnsPlanView::Ignore,
        Some(m) => {
            if m.message_type != DnsMessageType::Query || m.questions.len() == 0 {
                DnsPlanView::Ignore
            } else {
                let d = m.questions[0].0;
                let class = spec_classify_domain(d);
                match s.best_for(spec_strip_root_dot(d)) {
                    Some(ip) if class.accelerate => DnsPlanView::Respond(
                        spec_optimized_response(m, ip),
                        d,
                    ),
                    _ => DnsPlanView::Forward(d, class.github),
                }
            }
        },
    }
}

/// Decides what to do with a decoded query.
pub fn plan_dns_reply(scanner: &Scanner, query: Option<DnsQuery>) -> (r: DnsPlan)
    ensures
        r@ == spec_dns_plan(scanner, query_opt_view(query)),
{
    let m = match query {
        None => {
            return DnsPlan::Ignore;
        },
        Some(m) => m,
    };
    let ghost mv = m@;
    if m.questions.len() == 0 {
        return DnsPlan::Ignore;
    }
    match m.message_type {
        DnsMessageType::Query => {},
        DnsMessageType::Response => {
            return DnsPlan::Ignore;
        },
    }
    let domain = m.questions[0].name.clone();
    let class = classify_domain(domain.as_str());
    if class.accelerate {
        if let Some(ip) = scanner.get_best_ip(strip_root_dot(domain.as_str())) {
            let labels = copy_labels(&m.questions[0].labels);
            let mut answers: Vec<DnsAnswerA> = Vec::new();
            answers.push(DnsAnswerA { labels, ttl: ANSWER_TTL, ip });
            let response = DnsResponse {
                id: m.id,
                op_code: m.op_code,
                recursion_desired: m.recursion_desired,
                recursion_available: true,
                response_code: NO_ERROR,
                questions: m.questions,
                answers,
            };
            assert(response@.answers =~= seq![(mv.questions[0].1, ANSWER_TTL, ip)]);
            return DnsPlan::Respond { response, domain };
        }
    }
    DnsPlan::Forward { domain, github: class.github }
}

/// What the server does with a received datagram.
pub enum DnsAction {
    /// Nothing is sent back.
    Ignore,
    /// These bytes are sent back; `domain` is the queried name.
    Reply { response: Vec<u8>, domain: String },
    /// The datagram goes to the upstream server; `github` says whether the
    /// queried name is a GitHub one.
    Forward { domain: String, github: bool },
}

/// The values of an action.
pub enum DnsActionView {
    Ignore,
    Reply(Seq<u8>, Seq<char>),
    Forward(Seq<char>, bool),
}

impl View for DnsAction {
    type V = DnsActionView;

    open spec fn view(&self) -> DnsActionView {
        match self {
            DnsAction::Ignore => DnsActionView::Ignore,
            DnsAction::Reply { response, domain } => DnsActionView::Reply(response@, domain@),
            DnsAction::Forward { domain, github } => DnsActionView::Forward(domain@, *github),
        }
    }
}

/// What is sent for a planned answer once it is encoded: the bytes, or
/// nothing when encoding failed.
pub open spec fn spec_reply_action(domain: Seq<char>, encoded: Option<Seq<u8>>) -> DnsActionView {
    match encoded {
        Some(b) => DnsActionView::Reply(b, domain),
        None => DnsActionView::Ignore,
    }
}

/// What the server does with a datagram whose decoding gave `q`.
pub open spec fn spec_dns_action(s: &Scanner, q: Option<DnsQueryView>) -> DnsActionView {
    spec_plan_action(spec_dns_plan(s, q))
}

/// The action for a planned answer, given what encoding it produced.
pub fn reply_action(domain: String, encoded: Option<Vec<u8>>) -> (r: DnsAction)
    ensures
        r@ == spec_reply_action(domain@, bytes_opt_view(encoded)),
{
    match encoded {
        Some(response) => DnsAction::Reply { response, domain },
        None => DnsAction::Ignore,
    }
}

/// What is sent for a plan: a planned answer is encoded, and dropped when
/// encoding fails.
pub open spec fn spec_plan_action(p: DnsPlanView) -> DnsActionView {
    match p {
        DnsPlanView::Ignore => DnsActionView::Ignore,
        DnsPlanView::Respond(r, d) => spec_reply_action(d, spec_encode_dns_response(r)),
        DnsPlanView::Forward(d, g) => DnsActionView::Forward(d, g),
    }
}

/// Carries out the encoding part of a plan.
pub fn action_for_plan(plan: DnsPlan) -> (r: DnsAction)
    ensures
        r@ == spec_plan_action(plan@),
{
    match plan {
        DnsPlan::Ignore => DnsAction::Ignore,
        DnsPlan::Respond { response, domain } => {
            let encoded = encode_dns_response(&response);
            reply_action(domain, encoded)
        },
        DnsPlan::Forward { domain, github } => DnsAction::Forward { domain, github },
    }
}

/// Decides what to do with a received datagram: decode it, plan, and encode
/// a planned answer.
pub fn handle_dns_query(scanner: &Scanner, query_data: &[u8]) -> (r: DnsAction)
    ensures
        r@ == spec_dns_action(scanner, spec_decode_dns_query(query_data@)),
{
    let decoded = decode_dns_query(query_data);
    action_for_plan(plan_dns_reply(scanner, decoded))
}

/// Names that are not accelerated always go upstream; an accelerated name
/// with a usable address is answered with that address in a response that
/// echoes the query's id, op code, recursion flag and questions and carries
/// one A record for the queried name, its labels unchanged, with a 60-second
/// lifetime; and only queries with at least one question get anything but
/// silence. A name is classified and looked up without its trailing root dot
/// and handed on as decoded.
pub proof fn law_dns_routing(s: &Scanner, q: DnsQueryView)
    ensures
        (q.message_type != DnsMessageType::Query || q.questions.len() == 0) ==> spec_dns_plan(s, Some(q))
            == DnsPlanView::Ignore,
        (q.message_type == DnsMessageType::Query && q.questions.len() > 0 && !spec_classify_domain(
            q.questions[0].0,
        ).accelerate) ==> spec_dns_plan(s, Some(q)) == DnsPlanView::Forward(
            q.questions[0].0,
            spec_classify_domain(q.questions[0].0).github,
        ),
        (q.message_type == DnsMessageType::Query && q.questions.len() > 0 && spec_classify_domain(
            q.questions[0].0,
        ).accelerate && s.best_for(spec_strip_root_dot(q.questions[0].0)) is Some) ==> {
            let ip = s.best_for(spec_strip_root_dot(q.questions[0].0))->0;
            &&& spec_dns_plan(s, Some(q)) == DnsPlanView::Respond(spec_optimized_response(q, ip), q.questions[0].0)
            &&& spec_optimized_response(q, ip).id == q.id
            &&& spec_optimized_response(q, ip).questions == q.questions
            &&& spec_optimized_response(q, ip).answers == seq![(q.questions[0].1, ANSWER_TTL, ip)]
        },
        spec_dns_plan(s, None) == DnsPlanView::Ignore,
{
}

// ---------------------------------------------------------------------------
// Learning GitHub addresses from upstream answers
// ---------------------------------------------------------------------------

/// The dotted-quad texts of the addresses among `a`.
pub open spec fn answer_ip_texts(a: Seq<Option<[u8; 4]>>) -> Set<Seq<char>>
    decreases a.len(),
{
    if a.len() == 0 {
        Set::empty()
    } else {
        let rest = answer_ip_texts(a.drop_last());
        match a.last() {
            Some(ip) => rest.insert(spec_ipv4_text(ip)),
            None => rest,
        }
    }
}

/// The addresses learnt from a decoded reply: none when it did not decode.
pub open spec fn learnt_ip_texts(a: Option<Seq<Option<[u8; 4]>>>) -> Set<Seq<char>> {
    match a {
        Some(s) => answer_ip_texts(s),
        None => Set::empty(),
    }
}

/// Records the address of each A record of a decoded upstream reply as a
/// GitHub address.
pub fn register_answer_addresses(monitor: &mut GitHubTrafficMonitor, answers: Option<Vec<Option<[u8; 4]>>>)
    requires
        old(monitor).wf(),
    ensures
        final(monitor).wf(),
        final(monitor).github_ips() == old(monitor).github_ips().union(
            learnt_ip_texts(match answers { Some(v) => Some(v@), None => None }),
        ),
        final(monitor).history() == old(monitor).history(),
        final(monitor).process_history() == old(monitor).process_history(),
        final(monitor).capacity() == old(monitor).capacity(),
        final(monitor).last_counters() == old(monitor).last_counters(),
        final(monitor).target_configs() == old(monitor).target_configs(),
{
    let a = match answers {
        Some(a) => a,
        None => {
            assert(old(monitor).github_ips().union(Set::empty()) =~= old(monitor).github_ips());
            return;
        },
    };
    let mut i: usize = 0;
    while i < a.len()
        invariant
            i <= a.len(),
            monitor.wf(),
            monitor.github_ips() == old(monitor).github_ips().union(answer_ip_texts(a@.take(i as int))),
            monitor.history() == old(monitor).history(),
            monitor.process_history() == old(monitor).process_history(),
            monitor.capacity() == old(monitor).capacity(),
            monitor.last_counters() == old(monitor).last_counters(),
            monitor.target_configs() == old(monitor).target_configs(),
        decreases a.len() - i,
    {
        assert(a@.take(i as int + 1).drop_last() =~= a@.take(i as int));
        if let Some(ip) = a[i] {
            let text = ipv4_text(ip);
            monitor.register_github_ip(text);
        }
        assert(monitor.github_ips() =~= old(monitor).github_ips().union(
            answer_ip_texts(a@.take(i as int + 1)),
        ));
        i = i + 1;
    }
    assert(a@.take(a.len() as int) =~= a@);
}

/// Learns the GitHub addresses named by an upstream reply: the address of
/// each of its A records.
pub fn extract_and_register_github_ips(monitor: &mut GitHubTrafficMonitor, response_data: &[u8])
    requires
        old(monitor).wf(),
    ensures
        final(monitor).wf(),
        final(monitor).github_ips() == old(monitor).github_ips().union(
            learnt_ip_texts(spec_decode_answer_addresses(response_data@)),
        ),
        final(monitor).history() == old(monitor).history(),
        final(monitor).process_history() == old(monitor).process_history(),
        final(monitor).capacity() == old(monitor).capacity(),
        final(monitor).last_counters() == old(monitor).last_counters(),
        final(monitor).target_configs() == old(monitor).target_configs(),
{
    let answers = decode_answer_addresses(response_data);
    register_answer_addresses(monitor, answers);
}

} // verus!
