//! Port forwarding into a running instance: reading the requests, finding the
//! host port behind the instance's service port, and laying out the tunnels.

use vstd::prelude::*;
use crate::error::{Error, ErrorView};
use crate::projection::{published_port_of, Instance, PortMapping, PortMappingView};
use crate::text::{
    all_digits, chars_of, decimal, decimal_text, decimal_value, equal, lemma_decimal_round_trip,
    number_between,
};

verus! {

/// Which side accepts the connections of a forward.
#[derive(Debug, Clone, Copy, PartialEq, Eq, Structural)]
pub enum Direction {
    /// The local machine listens, and connections go into the instance.
    Local,
    /// The remote peer listens, and connections come back to the local machine.
    Remote,
}

impl Direction {
    /// Reads a direction from its name, `local` or `remote`.
    pub fn from_str(s: &str) -> (direction: Result<Direction, &'static str>)
        ensures
            s@ == "local"@ ==> direction == Ok::<Direction, &'static str>(Direction::Local),
            s@ == "remote"@ ==> direction == Ok::<Direction, &'static str>(Direction::Remote),
            s@ != "local"@ && s@ != "remote"@ ==> direction is Err && direction->Err_0@
                == "no match"@,
    {
        proof {
            reveal_strlit("local");
            reveal_strlit("remote");
            assert("local"@.len() != "remote"@.len());
        }
        if equal(s, "local") {
            Ok(Direction::Local)
        } else if equal(s, "remote") {
            Ok(Direction::Remote)
        } else {
            Err("no match")
        }
    }
}

/// A host and a port on it.
#[derive(Debug, PartialEq, Eq)]
pub struct Address {
    pub host: String,
    pub port: u16,
}

/// The mathematical content of an [`Address`].
pub struct AddressView {
    pub host: Seq<char>,
    pub port: u16,
}

impl View for Address {
    type V = AddressView;

    open spec fn view(&self) -> AddressView {
        AddressView { host: self.host@, port: self.port }
    }
}

impl AddressView {
    /// The host is there and holds no colon.
    pub open spec fn wf(self) -> bool {
        &&& self.host.len() > 0
        &&& forall|i: int| 0 <= i < self.host.len() ==> self.host[i] != ':'
    }

    /// The address written as `host:port`.
    pub open spec fn text(self) -> Seq<char> {
        self.host + seq![':'] + decimal_text(self.port as nat)
    }
}

impl Address {
    /// Writes the address as `host:port`.
    pub fn text(&self) -> (text: String)
        ensures
            text@ == self@.text(),
    {
        proof {
            reveal_strlit(":");
        }
        let mut text = self.host.clone();
        text.append(":");
        text.append(decimal(self.port as u64).as_str());
        text
    }
}

impl Clone for Address {
    fn clone(&self) -> (copy: Address)
        ensures
            copy == *self,
    {
        Address { host: self.host.clone(), port: self.port }
    }
}

/// The port that `text` writes: one or more decimal digits whose number is
/// at most 65535. Everything else writes no port.
pub open spec fn port_of(text: Seq<char>) -> Option<u16> {
    if text.len() > 0 && all_digits(text) && decimal_value(text) <= u16::MAX {
        Some(decimal_value(text) as u16)
    } else {
        None
    }
}

/// Reads the port that `text` writes.
pub fn parse_port(text: &str) -> (port: Option<u16>)
    ensures
        port == port_of(text@),
{
    let chars = chars_of(text);
    assert(chars@.subrange(0, chars.len() as int) =~= text@);
    port_between(&chars, 0, chars.len())
}

/// Reads the port that the characters from `from` up to `to` write.
fn port_between(chars: &Vec<char>, from: usize, to: usize) -> (port: Option<u16>)
    requires
        from <= to <= chars.len(),
    ensures
        port == port_of(chars@.subrange(from as int, to as int)),
{
    match number_between(chars, from, to) {
        Some(number) => {
            if number <= 65535 {
                Some(number as u16)
            } else {
                None
            }
        },
        None => None,
    }
}

/// The fields of `text`: what stands before, between and after its colons.
pub open spec fn fields_of(text: Seq<char>) -> Seq<Seq<char>>
    decreases text.len(),
{
    if text.len() == 0 {
        seq![Seq::<char>::empty()]
    } else {
        let front = fields_of(text.drop_last());
        if text.last() == ':' {
            front.push(Seq::<char>::empty())
        } else {
            front.update(front.len() - 1, front.last().push(text.last()))
        }
    }
}

/// A text has at least one field, and no field holds a colon.
pub proof fn lemma_fields(text: Seq<char>)
    ensures
        fields_of(text).len() > 0,
        forall|k: int, i: int|
            0 <= k < fields_of(text).len() && 0 <= i < fields_of(text)[k].len()
                ==> #[trigger] fields_of(text)[k][i] != ':',
    decreases text.len(),
{
    if text.len() > 0 {
        lemma_fields(text.drop_last());
    }
}

/// Where each field of `chars` begins and ends.
fn field_bounds(chars: &Vec<char>) -> (bounds: Vec<(usize, usize)>)
    ensures
        bounds.len() == fields_of(chars@).len(),
        forall|k: int|
            0 <= k < bounds.len() ==> {
                &&& (#[trigger] bounds[k]).0 <= bounds[k].1 <= chars.len()
                &&& chars@.subrange(bounds[k].0 as int, bounds[k].1 as int) == fields_of(
                    chars@,
                )[k]
            },
{
    let mut bounds: Vec<(usize, usize)> = Vec::new();
    let mut start: usize = 0;
    let mut i: usize = 0;
    while i < chars.len()
        invariant
            start <= i <= chars.len(),
            fields_of(chars@.take(i as int)).len() == bounds.len() + 1,
            fields_of(chars@.take(i as int)).last() == chars@.subrange(start as int, i as int),
            forall|k: int|
                0 <= k < bounds.len() ==> {
                    &&& (#[trigger] bounds[k]).0 <= bounds[k].1 <= chars.len()
                    &&& chars@.subrange(bounds[k].0 as int, bounds[k].1 as int) == fields_of(
                        chars@.take(i as int),
                    )[k]
                },
        decreases chars.len() - i,
    {
        proof {
            assert(chars@.take(i + 1).drop_last() =~= chars@.take(i as int));
        }
        if chars[i] == ':' {
            bounds.push((start, i));
            start = i + 1;
        }
        i = i + 1;
    }
    proof {
        assert(chars@.take(chars.len() as int) =~= chars@);
    }
    bounds.push((start, chars.len()));
    bounds
}

/// One request to forward: an address on the local side, an address on the
/// remote side, and the side that listens.
#[derive(Debug, PartialEq, Eq)]
pub struct ForwardRequest {
    pub local: Address,
    pub remote: Address,
    pub direction: Direction,
}

/// The mathematical content of a [`ForwardRequest`].
pub struct ForwardRequestView {
    pub local: AddressView,
    pub remote: AddressView,
    pub direction: Direction,
}

impl View for ForwardRequest {
    type V = ForwardRequestView;

    open spec fn view(&self) -> ForwardRequestView {
        ForwardRequestView { local: self.local@, remote: self.remote@, direction: self.direction }
    }
}

impl DeepView for ForwardRequest {
    type V = ForwardRequestView;

    open spec fn deep_view(&self) -> ForwardRequestView {
        self@
    }
}

impl ForwardRequestView {
    /// Both addresses have a host without a colon.
    pub open spec fn wf(self) -> bool {
        self.local.wf() && self.remote.wf()
    }

    /// The request written as `local host:local port:remote host:remote port`.
    pub open spec fn text(self) -> Seq<char> {
        self.local.text() + seq![':'] + self.remote.text()
    }
}

/// The address that a host field and a port field write: the host is not
/// empty and the port field writes a port.
pub open spec fn address_of(host: Seq<char>, port: Seq<char>) -> Option<AddressView> {
    match port_of(port) {
        Some(p) if host.len() > 0 => Some(AddressView { host, port: p }),
        _ => None,
    }
}

/// The request that `text` writes in the form
/// `local host:local port:remote host:remote port`, or `None` where `text`
/// has another form.
pub open spec fn request_of(text: Seq<char>, direction: Direction) -> Option<ForwardRequestView> {
    let fields = fields_of(text);
    if fields.len() != 4 {
        None
    } else {
        match (address_of(fields[0], fields[1]), address_of(fields[2], fields[3])) {
            (Some(local), Some(remote)) => Some(ForwardRequestView { local, remote, direction }),
            _ => None,
        }
    }
}

/// Reads the address whose host and port stand in `text` between the given bounds.
fn address_between(text: &str, chars: &Vec<char>, host: (usize, usize), port: (usize, usize)) -> (address:
    Option<Address>)
    requires
        chars@ == text@,
        host.0 <= host.1 <= chars.len(),
        port.0 <= port.1 <= chars.len(),
    ensures
        match address {
            Some(a) => address_of(
                text@.subrange(host.0 as int, host.1 as int),
                text@.subrange(port.0 as int, port.1 as int),
            ) == Some(a@),
            None => address_of(
                text@.subrange(host.0 as int, host.1 as int),
                text@.subrange(port.0 as int, port.1 as int),
            ) is None,
        },
{
    if host.0 == host.1 {
        return None;
    }
    match port_between(chars, port.0, port.1) {
        None => None,
        Some(p) => {
            let name = text.substring_char(host.0, host.1);
            Some(Address { host: String::from_str(name), port: p })
        },
    }
}

/// A text without a colon is one field.
pub proof fn lemma_one_field(text: Seq<char>)
    requires
        forall|i: int| 0 <= i < text.len() ==> text[i] != ':',
    ensures
        fields_of(text) == seq![text],
    decreases text.len(),
{
    if text.len() == 0 {
        assert(text =~= Seq::<char>::empty());
    } else {
        let front = text.drop_last();
        lemma_one_field(front);
        assert(front.push(text.last()) =~= text);
    }
}

/// The fields of two texts joined by a colon are the fields of the first
/// followed by the fields of the second.
pub proof fn lemma_fields_of_joined(first: Seq<char>, second: Seq<char>)
    ensures
        fields_of(first + seq![':'] + second) == fields_of(first) + fields_of(second),
    decreases second.len(),
{
    let joined = first + seq![':'] + second;
    if second.len() == 0 {
        assert(joined.drop_last() =~= first);
    } else {
        let front = second.drop_last();
        lemma_fields_of_joined(first, front);
        lemma_fields(front);
        assert(joined.drop_last() =~= first + seq![':'] + front);
    }
}

/// What reading gives has hosts that are there and hold no colon.
pub proof fn lemma_read_request_is_wf(text: Seq<char>, direction: Direction)
    requires
        request_of(text, direction) is Some,
    ensures
        request_of(text, direction)->0.wf(),
        request_of(text, direction)->0.direction == direction,
{
    lemma_fields(text);
}

/// A request that is written out reads back as the same request.
pub proof fn lemma_request_round_trip(request: ForwardRequestView)
    requires
        request.wf(),
    ensures
        request_of(request.text(), request.direction) == Some(request),
{
    let local_port = decimal_text(request.local.port as nat);
    let remote_port = decimal_text(request.remote.port as nat);
    lemma_decimal_round_trip(request.local.port as nat);
    lemma_decimal_round_trip(request.remote.port as nat);
    lemma_one_field(request.local.host);
    lemma_one_field(local_port);
    lemma_one_field(request.remote.host);
    lemma_one_field(remote_port);
    let local = request.local.text();
    let front = local + seq![':'] + request.remote.host;
    lemma_fields_of_joined(request.local.host, local_port);
    lemma_fields_of_joined(local, request.remote.host);
    lemma_fields_of_joined(front, remote_port);
    assert(request.text() =~= front + seq![':'] + remote_port);
}

impl ForwardRequest {
    /// Writes the request as `local host:local port:remote host:remote port`.
    pub fn text(&self) -> (text: String)
        ensures
            text@ == self@.text(),
    {
        proof {
            reveal_strlit(":");
        }
        let mut text = self.local.text();
        text.append(":");
        text.append(self.remote.text().as_str());
        text
    }

    /// Reads one request from the form
    /// `local host:local port:remote host:remote port`, as in
    /// `localhost:5000:localhost:5000`. Both hosts must be there and both
    /// ports must be decimal numbers up to 65535.
    pub fn parse(text: &str, direction: Direction) -> (request: Option<ForwardRequest>)
        ensures
            match request {
                Some(r) => request_of(text@, direction) == Some(r@),
                None => request_of(text@, direction) is None,
            },
    {
        let chars = chars_of(text);
        let bounds = field_bounds(&chars);
        if bounds.len() != 4 {
            return None;
        }
        let local = address_between(text, &chars, bounds[0], bounds[1]);
        let remote = address_between(text, &chars, bounds[2], bounds[3]);
        match (local, remote) {
            (Some(local), Some(remote)) => Some(ForwardRequest { local, remote, direction }),
            _ => None,
        }
    }
}

/// The state in which the runtime reports a running container.
pub const RUNNING: &'static str = "running";

/// The host port that a mapping binds to the service port, `None` for a
/// mapping of another port and for one that publishes nothing over TCP.
pub open spec fn service_binding(mapping: PortMappingView, service_port: u64) -> Option<u64> {
    if mapping.private_port == service_port {
        published_port_of(mapping)
    } else {
        None
    }
}

/// The host port through which the instance's service port is reached: the
/// first binding of the service port in the port-mapping table.
pub open spec fn gateway_port_of(ports: Seq<PortMappingView>, service_port: u64) -> Option<u64> {
    let bound = ports.filter_map(|mapping: PortMappingView| service_binding(mapping, service_port));
    if bound.len() == 0 {
        None
    } else {
        Some(bound[0])
    }
}

/// Finds the host port that the runtime bound to the instance's service port.
pub fn gateway_port(ports: &Vec<PortMapping>, service_port: u64) -> (port: Option<u64>)
    ensures
        port == gateway_port_of(ports.deep_view(), service_port),
{
    let ghost table = ports.deep_view();
    let ghost pick = |mapping: PortMappingView| service_binding(mapping, service_port);
    let mut port: Option<u64> = None;
    let mut i: usize = 0;
    while i < ports.len()
        invariant
            i <= ports.len(),
            table == ports.deep_view(),
            pick == (|mapping: PortMappingView| service_binding(mapping, service_port)),
            port == ({
                let bound = table.take(i as int).filter_map(pick);
                if bound.len() == 0 {
                    None
                } else {
                    Some(bound[0])
                }
            }),
        decreases ports.len() - i,
    {
        let mapping = &ports[i];
        proof {
            assert(table.take(i + 1).drop_last() =~= table.take(i as int));
        }
        if port.is_none() && mapping.private_port == service_port && equal(
            mapping.protocol.as_str(),
            "tcp",
        ) {
            port = mapping.public_port;
        }
        i = i + 1;
    }
    assert(table.take(ports.len() as int) =~= table);
    port
}

/// Finds the instance called `name` among the instances of one listing.
pub fn find_instance<'a>(instances: &'a Vec<Instance>, name: &str) -> (found: Result<
    &'a Instance,
    Error,
>)
    ensures
        match found {
            Ok(instance) => exists|i: int|
                {
                    &&& 0 <= i < instances.len()
                    &&& instances[i] == instance
                    &&& instance@.name == name@
                    &&& forall|k: int| 0 <= k < i ==> instances[k]@.name != name@
                },
            Err(e) => {
                &&& e@ == ErrorView::InstanceNotFound(name@)
                &&& forall|i: int| 0 <= i < instances.len() ==> instances[i]@.name != name@
            },
        },
{
    let mut i: usize = 0;
    while i < instances.len()
        invariant
            i <= instances.len(),
            forall|k: int| 0 <= k < i ==> instances[k]@.name != name@,
        decreases instances.len() - i,
    {
        if equal(instances[i].name.as_str(), name) {
            return Ok(&instances[i]);
        }
        i = i + 1;
    }
    Err(Error::InstanceNotFound(String::from_str(name)))
}

/// One tunnel of a forward: the address that is listened on, and the address
/// that each accepted connection is taken to.
#[derive(Debug, PartialEq, Eq)]
pub struct Tunnel {
    /// The side that listens.
    pub direction: Direction,
    /// The address that the listening side binds.
    pub listen: Address,
    /// The address that the other side connects to for each accepted connection.
    pub connect: Address,
}

/// The mathematical content of a [`Tunnel`].
pub struct TunnelView {
    pub direction: Direction,
    pub listen: AddressView,
    pub connect: AddressView,
}

impl View for Tunnel {
    type V = TunnelView;

    open spec fn view(&self) -> TunnelView {
        TunnelView { direction: self.direction, listen: self.listen@, connect: self.connect@ }
    }
}

impl DeepView for Tunnel {
    type V = TunnelView;

    open spec fn deep_view(&self) -> TunnelView {
        self@
    }
}

/// The tunnel that serves a request. In the local direction the local address
/// is bound and connections go on to the remote address; in the remote
/// direction the remote peer binds the remote address and connections come
/// back to the local address.
pub open spec fn tunnel_of(request: ForwardRequestView) -> TunnelView {
    match request.direction {
        Direction::Local => TunnelView {
            direction: Direction::Local,
            listen: request.local,
            connect: request.remote,
        },
        Direction::Remote => TunnelView {
            direction: Direction::Remote,
            listen: request.remote,
            connect: request.local,
        },
    }
}

impl ForwardRequest {
    /// The tunnel that serves this request.
    pub fn tunnel(&self) -> (tunnel: Tunnel)
        ensures
            tunnel@ == tunnel_of(self@),
    {
        match self.direction {
            Direction::Local => Tunnel {
                direction: Direction::Local,
                listen: self.local.clone(),
                connect: self.remote.clone(),
            },
            Direction::Remote => Tunnel {
                direction: Direction::Remote,
                listen: self.remote.clone(),
                connect: self.local.clone(),
            },
        }
    }
}

/// What has to be set up to forward into an instance.
#[derive(Debug, PartialEq, Eq)]
pub struct ForwardPlan {
    /// The host port behind the instance's service port: every tunnel runs
    /// through `localhost` at this port.
    pub gateway_port: u64,
    /// One tunnel for each request, in the order of the requests.
    pub tunnels: Vec<Tunnel>,
}

/// The mathematical content of a [`ForwardPlan`].
pub struct ForwardPlanView {
    pub gateway_port: u64,
    pub tunnels: Seq<TunnelView>,
}

impl View for ForwardPlan {
    type V = ForwardPlanView;

    open spec fn view(&self) -> ForwardPlanView {
        ForwardPlanView { gateway_port: self.gateway_port, tunnels: self.tunnels.deep_view() }
    }
}

/// The plan for forwarding into an instance, or the reason why there is none:
/// the instance does not run, or it runs and does not publish its service port.
pub open spec fn plan_of(
    status: Seq<char>,
    ports: Seq<PortMappingView>,
    service_port: u64,
    requests: Seq<ForwardRequestView>,
) -> Result<ForwardPlanView, ErrorView> {
    if status != RUNNING@ {
        Err(ErrorView::InstanceNotRunning)
    } else {
        match gateway_port_of(ports, service_port) {
            None => Err(ErrorView::PortNotPublished),
            Some(gateway_port) => Ok(
                ForwardPlanView {
                    gateway_port,
                    tunnels: Seq::new(requests.len(), |i: int| tunnel_of(requests[i])),
                },
            ),
        }
    }
}

/// The view of a plan or of the error in its place.
pub open spec fn plan_view(plan: Result<ForwardPlan, Error>) -> Result<ForwardPlanView, ErrorView> {
    match plan {
        Ok(p) => Ok(p@),
        Err(e) => Err(e@),
    }
}

/// Lays out the forwards into an instance. `status` is the instance's state,
/// `ports` the port-mapping table that inspecting it gave, and `service_port`
/// the port inside the instance that the tunnels run through.
pub fn plan_forward(
    status: &str,
    ports: &Vec<PortMapping>,
    service_port: u64,
    requests: &Vec<ForwardRequest>,
) -> (plan: Result<ForwardPlan, Error>)
    ensures
        plan_view(plan) == plan_of(status@, ports.deep_view(), service_port, requests.deep_view()),
{
    if !equal(status, RUNNING) {
        return Err(Error::InstanceNotRunning);
    }
    match gateway_port(ports, service_port) {
        None => Err(Error::PortNotPublished),
        Some(port) => {
            let mut tunnels: Vec<Tunnel> = Vec::new();
            let mut i: usize = 0;
            while i < requests.len()
                invariant
                    i <= requests.len(),
                    tunnels.len() == i,
                    forall|k: int| 0 <= k < i ==> (#[trigger] tunnels[k])@ == tunnel_of(requests[k]@),
                decreases requests.len() - i,
            {
                tunnels.push(requests[i].tunnel());
                i = i + 1;
            }
            assert(tunnels.deep_view() =~= Seq::new(
                requests.deep_view().len(),
                |i: int| tunnel_of(requests.deep_view()[i]),
            ));
            Ok(ForwardPlan { gateway_port: port, tunnels })
        },
    }
}

} // verus!
