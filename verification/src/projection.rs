//! Projection of the runtime's container records into instances: the user's
//! name, the lifecycle state, and the range of the ports that the host
//! publishes.

use vstd::prelude::*;
use vstd::seq_lib::{to_multiset_contains, to_multiset_insert, to_multiset_len};
use crate::error::Error;
use crate::naming::{from_runtime_name, user_name_of};
use crate::text::{
    chars_of, decimal, decimal_text, equal, number_between, number_of, parse_number,
};

verus! {

/// One row of a container's port-mapping table.
#[derive(Debug, PartialEq, Eq)]
pub struct PortMapping {
    /// The port inside the container.
    pub private_port: u64,
    /// The port on the host that the runtime bound to it, if any.
    pub public_port: Option<u64>,
    /// The transport protocol, as the runtime names it (`tcp`, `udp`).
    pub protocol: String,
}

/// The mathematical content of a [`PortMapping`].
pub struct PortMappingView {
    pub private_port: u64,
    pub public_port: Option<u64>,
    pub protocol: Seq<char>,
}

impl View for PortMapping {
    type V = PortMappingView;

    open spec fn view(&self) -> PortMappingView {
        PortMappingView {
            private_port: self.private_port,
            public_port: self.public_port,
            protocol: self.protocol@,
        }
    }
}

impl DeepView for PortMapping {
    type V = PortMappingView;

    open spec fn deep_view(&self) -> PortMappingView {
        self@
    }
}

/// Where the first `/` of `key` stands, or the length of `key` where it has none.
pub open spec fn slash_at(key: Seq<char>) -> int
    decreases key.len(),
{
    if key.len() == 0 || key[0] == '/' {
        0
    } else {
        1 + slash_at(key.drop_first())
    }
}

/// The mapping that inspecting a container shows under `key`, which has the
/// form `port/protocol` as in `8005/tcp`, with the host port that stands
/// beside it. A key of another form shows no mapping; a host port that is
/// missing or is no number leaves the mapping without one.
pub open spec fn binding_of(key: Seq<char>, host_port: Option<Seq<char>>) -> Option<
    PortMappingView,
> {
    let at = slash_at(key);
    match number_of(key.take(at)) {
        Some(private_port) if at + 1 < key.len() => Some(
            PortMappingView {
                private_port,
                public_port: match host_port {
                    Some(text) => number_of(text),
                    None => None,
                },
                protocol: key.skip(at + 1),
            },
        ),
        _ => None,
    }
}

/// Wherever the first `/` is found by looking from the front, that is where
/// it stands.
proof fn lemma_slash_found(key: Seq<char>, at: int)
    requires
        0 <= at <= key.len(),
        forall|i: int| 0 <= i < at ==> key[i] != '/',
        at < key.len() ==> key[at] == '/',
    ensures
        slash_at(key) == at,
    decreases key.len(),
{
    if key.len() > 0 && key[0] != '/' {
        let rest = key.drop_first();
        lemma_slash_found(rest, at - 1);
    }
}

impl PortMapping {
    /// Reads one binding as inspecting a container shows it: the key
    /// `port/protocol` and, where there is one, the host port in decimal.
    pub fn from_binding(key: &str, host_port: Option<&str>) -> (mapping: Option<PortMapping>)
        ensures
            match mapping {
                Some(m) => binding_of(
                    key@,
                    match host_port {
                        Some(text) => Some(text@),
                        None => None,
                    },
                ) == Some(m@),
                None => binding_of(
                    key@,
                    match host_port {
                        Some(text) => Some(text@),
                        None => None,
                    },
                ) is None,
            },
    {
        let chars = chars_of(key);
        let mut at: usize = 0;
        while at < chars.len() && chars[at] != '/'
            invariant
                at <= chars.len(),
                forall|i: int| 0 <= i < at ==> chars@[i] != '/',
            decreases chars.len() - at,
        {
            at = at + 1;
        }
        proof {
            lemma_slash_found(key@, at as int);
        }
        match number_between(&chars, 0, at) {
            None => None,
            Some(private_port) => {
                if chars.len() - at < 2 {
                    return None;
                }
                let protocol = key.substring_char(at + 1, chars.len());
                let public_port = match host_port {
                    Some(text) => parse_number(text),
                    None => None,
                };
                Some(
                    PortMapping {
                        private_port,
                        public_port,
                        protocol: String::from_str(protocol),
                    },
                )
            },
        }
    }
}

/// What the runtime reports of one container.
#[derive(Debug, PartialEq, Eq)]
pub struct ContainerRecord {
    /// The runtime's identity of the container.
    pub id: String,
    /// The names under which the runtime lists it, each with a `/` in front.
    pub names: Vec<String>,
    /// The lifecycle state, as the runtime names it.
    pub state: String,
    /// The port-mapping table.
    pub ports: Vec<PortMapping>,
}

/// The mathematical content of a [`ContainerRecord`].
pub struct ContainerRecordView {
    pub id: Seq<char>,
    pub names: Seq<Seq<char>>,
    pub state: Seq<char>,
    pub ports: Seq<PortMappingView>,
}

impl View for ContainerRecord {
    type V = ContainerRecordView;

    open spec fn view(&self) -> ContainerRecordView {
        ContainerRecordView {
            id: self.id@,
            names: self.names.deep_view(),
            state: self.state@,
            ports: self.ports.deep_view(),
        }
    }
}

impl DeepView for ContainerRecord {
    type V = ContainerRecordView;

    open spec fn deep_view(&self) -> ContainerRecordView {
        self@
    }
}

/// A container seen as an instance.
#[derive(Debug, PartialEq, Eq)]
pub struct Instance {
    /// The user's name for the instance: the container's name without the prefix.
    pub name: String,
    /// The lowest port that the host publishes for the instance.
    pub start_port: Option<u64>,
    /// The highest port that the host publishes for the instance.
    pub end_port: Option<u64>,
    /// The lifecycle state, passed through from the runtime.
    pub status: String,
    /// The runtime's identity of the container behind the instance.
    pub handle: String,
}

/// The mathematical content of an [`Instance`].
pub struct InstanceView {
    pub name: Seq<char>,
    pub start_port: Option<u64>,
    pub end_port: Option<u64>,
    pub status: Seq<char>,
    pub handle: Seq<char>,
}

impl View for Instance {
    type V = InstanceView;

    open spec fn view(&self) -> InstanceView {
        InstanceView {
            name: self.name@,
            start_port: self.start_port,
            end_port: self.end_port,
            status: self.status@,
            handle: self.handle@,
        }
    }
}

impl DeepView for Instance {
    type V = InstanceView;

    open spec fn deep_view(&self) -> InstanceView {
        self@
    }
}

impl InstanceView {
    /// Both ends of the port range are present or both are absent, and the
    /// range does not run backwards.
    pub open spec fn wf(self) -> bool {
        match (self.start_port, self.end_port) {
            (Some(start), Some(end)) => start <= end,
            (None, None) => true,
            _ => false,
        }
    }

    /// The port range as a pair.
    pub open spec fn port_range(self) -> Option<(u64, u64)> {
        match (self.start_port, self.end_port) {
            (Some(start), Some(end)) => Some((start, end)),
            _ => None,
        }
    }
}

/// How a port range is shown: the two ends in decimal with a `-` between them,
/// and nothing where there is no range.
pub open spec fn ports_label_of(range: Option<(u64, u64)>) -> Seq<char> {
    match range {
        Some((start, end)) => decimal_text(start as nat) + seq!['-'] + decimal_text(end as nat),
        None => Seq::empty(),
    }
}

/// Writes a port range for display.
pub fn ports_label(range: Option<(u64, u64)>) -> (label: String)
    ensures
        label@ == ports_label_of(range),
{
    match range {
        Some((start, end)) => {
            proof {
                reveal_strlit("-");
            }
            let mut label = decimal(start);
            label.append("-");
            label.append(decimal(end).as_str());
            label
        },
        None => String::new(),
    }
}

impl Instance {
    /// The port range for display.
    pub fn ports_label(&self) -> (label: String)
        ensures
            label@ == ports_label_of(self@.port_range()),
    {
        ports_label(self.port_range())
    }

    /// The range of published ports, lowest and highest, or `None` where the
    /// instance publishes none.
    pub fn port_range(&self) -> (range: Option<(u64, u64)>)
        ensures
            range == self@.port_range(),
    {
        match (self.start_port, self.end_port) {
            (Some(start), Some(end)) => Some((start, end)),
            _ => None,
        }
    }
}

/// The host port of a mapping that publishes a TCP port, `None` for every
/// other mapping.
pub open spec fn published_port_of(mapping: PortMappingView) -> Option<u64> {
    if mapping.protocol == "tcp"@ {
        mapping.public_port
    } else {
        None
    }
}

/// The host ports that a port-mapping table publishes over TCP, in the
/// table's order.
pub open spec fn published_ports_of(ports: Seq<PortMappingView>) -> Seq<u64> {
    ports.filter_map(|mapping: PortMappingView| published_port_of(mapping))
}

/// True when no port is followed by a lower one.
pub open spec fn ascending(ports: Seq<u64>) -> bool {
    forall|i: int, j: int| 0 <= i <= j < ports.len() ==> ports[i] <= ports[j]
}

/// The lowest of `ports`.
pub open spec fn lowest(ports: Seq<u64>) -> u64
    recommends
        ports.len() > 0,
    decreases ports.len(),
{
    if ports.len() <= 1 {
        ports[0]
    } else {
        let rest = lowest(ports.drop_last());
        if ports.last() < rest {
            ports.last()
        } else {
            rest
        }
    }
}

/// The highest of `ports`.
pub open spec fn highest(ports: Seq<u64>) -> u64
    recommends
        ports.len() > 0,
    decreases ports.len(),
{
    if ports.len() <= 1 {
        ports[0]
    } else {
        let rest = highest(ports.drop_last());
        if ports.last() > rest {
            ports.last()
        } else {
            rest
        }
    }
}

/// The range that `ports` span: the lowest and the highest of them, or `None`
/// where there is none.
pub open spec fn range_of(ports: Seq<u64>) -> Option<(u64, u64)> {
    if ports.len() == 0 {
        None
    } else {
        Some((lowest(ports), highest(ports)))
    }
}

/// The lowest port is one of the ports, and none is lower.
pub proof fn lemma_lowest(ports: Seq<u64>)
    requires
        ports.len() > 0,
    ensures
        ports.contains(lowest(ports)),
        forall|i: int| 0 <= i < ports.len() ==> lowest(ports) <= ports[i],
    decreases ports.len(),
{
    if ports.len() > 1 {
        let front = ports.drop_last();
        lemma_lowest(front);
        let k = choose|k: int| 0 <= k < front.len() && front[k] == lowest(front);
        assert(ports[k] == front[k]);
        assert(ports[ports.len() - 1] == ports.last());
        assert forall|i: int| 0 <= i < ports.len() implies lowest(ports) <= ports[i] by {
            if i < front.len() {
                assert(front[i] == ports[i]);
            }
        }
    } else {
        assert(ports[0] == lowest(ports));
    }
}

/// The highest port is one of the ports, and none is higher.
pub proof fn lemma_highest(ports: Seq<u64>)
    requires
        ports.len() > 0,
    ensures
        ports.contains(highest(ports)),
        forall|i: int| 0 <= i < ports.len() ==> ports[i] <= highest(ports),
    decreases ports.len(),
{
    if ports.len() > 1 {
        let front = ports.drop_last();
        lemma_highest(front);
        let k = choose|k: int| 0 <= k < front.len() && front[k] == highest(front);
        assert(ports[k] == front[k]);
        assert(ports[ports.len() - 1] == ports.last());
        assert forall|i: int| 0 <= i < ports.len() implies ports[i] <= highest(ports) by {
            if i < front.len() {
                assert(front[i] == ports[i]);
            }
        }
    } else {
        assert(ports[0] == highest(ports));
    }
}

/// The range of a set of ports never runs backwards, and every port lies in it.
pub proof fn lemma_range_bounds(ports: Seq<u64>)
    ensures
        range_of(ports) is None <==> ports.len() == 0,
        range_of(ports) matches Some((start, end)) ==> {
            &&& start <= end
            &&& ports.contains(start)
            &&& ports.contains(end)
            &&& forall|i: int|
                0 <= i < ports.len() ==> start <= #[trigger] ports[i] && ports[i] <= end
        },
{
    if ports.len() > 0 {
        lemma_lowest(ports);
        lemma_highest(ports);
    }
}

/// After sorting, the range stands at the two ends: the first port is the
/// lowest and the last is the highest.
pub proof fn lemma_sorted_ends(ports: Seq<u64>, sorted: Seq<u64>)
    requires
        ascending(sorted),
        sorted.to_multiset() == ports.to_multiset(),
        ports.len() > 0,
    ensures
        sorted.len() == ports.len(),
        sorted.first() == lowest(ports),
        sorted.last() == highest(ports),
{
    to_multiset_len(ports);
    to_multiset_len(sorted);
    lemma_lowest(ports);
    lemma_highest(ports);
    let lo = lowest(ports);
    let hi = highest(ports);
    to_multiset_contains(ports, lo);
    to_multiset_contains(sorted, lo);
    to_multiset_contains(ports, hi);
    to_multiset_contains(sorted, hi);
    let a = choose|a: int| 0 <= a < sorted.len() && sorted[a] == lo;
    let b = choose|b: int| 0 <= b < sorted.len() && sorted[b] == hi;
    assert(sorted[0] <= sorted[a]);
    assert(sorted[b] <= sorted[sorted.len() - 1]);
    to_multiset_contains(sorted, sorted.first());
    to_multiset_contains(ports, sorted.first());
    to_multiset_contains(sorted, sorted.last());
    to_multiset_contains(ports, sorted.last());
    assert(sorted.contains(sorted[0]));
    assert(sorted.contains(sorted[sorted.len() - 1]));
    let c = choose|c: int| 0 <= c < ports.len() && ports[c] == sorted.first();
    let d = choose|d: int| 0 <= d < ports.len() && ports[d] == sorted.last();
    assert(lo <= ports[c]);
    assert(ports[d] <= hi);
}

/// The host ports that `ports` publishes over TCP, in the table's order.
/// Mappings without a host port, and those of another protocol, are skipped.
pub fn published_ports(ports: &Vec<PortMapping>) -> (published: Vec<u64>)
    ensures
        published@ == published_ports_of(ports.deep_view()),
{
    let ghost table = ports.deep_view();
    let ghost pick = |mapping: PortMappingView| published_port_of(mapping);
    let mut published: Vec<u64> = Vec::new();
    let mut i: usize = 0;
    while i < ports.len()
        invariant
            i <= ports.len(),
            table == ports.deep_view(),
            pick == (|mapping: PortMappingView| published_port_of(mapping)),
            published@ == table.take(i as int).filter_map(pick),
        decreases ports.len() - i,
    {
        let mapping = &ports[i];
        proof {
            assert(table.take(i + 1).drop_last() =~= table.take(i as int));
        }
        if equal(mapping.protocol.as_str(), "tcp") {
            match mapping.public_port {
                Some(port) => {
                    published.push(port);
                },
                None => {},
            }
        }
        i = i + 1;
    }
    assert(table.take(ports.len() as int) =~= table);
    published
}

/// The ports in ascending order.
pub fn sort_ports(ports: &Vec<u64>) -> (sorted: Vec<u64>)
    ensures
        ascending(sorted@),
        sorted@.to_multiset() == ports@.to_multiset(),
{
    let mut sorted: Vec<u64> = Vec::new();
    let mut i: usize = 0;
    assert(ports@.take(0) =~= Seq::<u64>::empty());
    while i < ports.len()
        invariant
            i <= ports.len(),
            sorted.len() == i,
            ascending(sorted@),
            sorted@.to_multiset() == ports@.take(i as int).to_multiset(),
        decreases ports.len() - i,
    {
        let port = ports[i];
        let mut at: usize = 0;
        while at < sorted.len() && sorted[at] <= port
            invariant
                at <= sorted.len(),
                forall|k: int| 0 <= k < at ==> sorted@[k] <= port,
            decreases sorted.len() - at,
        {
            at = at + 1;
        }
        let ghost before = sorted@;
        sorted.insert(at, port);
        proof {
            to_multiset_insert(before, at as int, port);
            assert(ports@.take(i + 1) =~= ports@.take(i as int).push(port));
            vstd::seq_lib::to_multiset_build(ports@.take(i as int), port);
        }
        i = i + 1;
    }
    assert(ports@.take(ports.len() as int) =~= ports@);
    sorted
}

/// The range of the host ports that `ports` publishes over TCP: they are put
/// in ascending order, and the first and the last make the range.
pub fn port_range(ports: &Vec<PortMapping>) -> (range: Option<(u64, u64)>)
    ensures
        range == range_of(published_ports_of(ports.deep_view())),
{
    let published = published_ports(ports);
    let sorted = sort_ports(&published);
    proof {
        to_multiset_len(published@);
        to_multiset_len(sorted@);
    }
    if sorted.len() == 0 {
        None
    } else {
        proof {
            lemma_sorted_ends(published@, sorted@);
        }
        Some((sorted[0], sorted[sorted.len() - 1]))
    }
}

/// The instance that a container record shows, or `None` where the container
/// is no instance: it has no name, or its first name does not carry the prefix.
pub open spec fn instance_of(prefix: Seq<char>, record: ContainerRecordView) -> Option<
    InstanceView,
> {
    if record.names.len() == 0 {
        None
    } else {
        match user_name_of(prefix, record.names[0]) {
            None => None,
            Some(name) => {
                let range = range_of(published_ports_of(record.ports));
                Some(
                    InstanceView {
                        name,
                        start_port: match range {
                            Some((start, _)) => Some(start),
                            None => None,
                        },
                        end_port: match range {
                            Some((_, end)) => Some(end),
                            None => None,
                        },
                        status: record.state,
                        handle: record.id,
                    },
                )
            },
        }
    }
}

/// The instances among `records`, in the order of the records.
pub open spec fn instances_of(prefix: Seq<char>, records: Seq<ContainerRecordView>) -> Seq<
    InstanceView,
> {
    records.filter_map(|record: ContainerRecordView| instance_of(prefix, record))
}

/// Listing two runs of records one after the other gives the instances of the
/// first run followed by those of the second.
pub proof fn lemma_instances_of_concat(
    prefix: Seq<char>,
    first: Seq<ContainerRecordView>,
    second: Seq<ContainerRecordView>,
)
    ensures
        instances_of(prefix, first + second) == instances_of(prefix, first) + instances_of(
            prefix,
            second,
        ),
    decreases second.len(),
{
    if second.len() > 0 {
        lemma_instances_of_concat(prefix, first, second.drop_last());
        assert((first + second).drop_last() =~= first + second.drop_last());
    }
}

/// A container that is no instance is left out of the listing wherever it
/// stands among the records: the listing is the same as without it.
pub proof fn lemma_foreign_container_is_left_out(
    prefix: Seq<char>,
    before: Seq<ContainerRecordView>,
    record: ContainerRecordView,
    after: Seq<ContainerRecordView>,
)
    requires
        instance_of(prefix, record) is None,
    ensures
        instances_of(prefix, before + seq![record] + after) == instances_of(
            prefix,
            before + after,
        ),
{
    lemma_instances_of_concat(prefix, before + seq![record], after);
    lemma_instances_of_concat(prefix, before, seq![record]);
    lemma_instances_of_concat(prefix, before, after);
    assert(instances_of(prefix, seq![record]) =~= Seq::<InstanceView>::empty()) by {
        reveal_with_fuel(Seq::filter_map, 2);
    }
}

/// Every instance of a listing is what one of the listed containers shows,
/// and that container carries the prefix.
pub proof fn lemma_listed_instance_has_container(
    prefix: Seq<char>,
    records: Seq<ContainerRecordView>,
    instance: InstanceView,
)
    requires
        instances_of(prefix, records).contains(instance),
    ensures
        exists|i: int|
            0 <= i < records.len() && instance_of(prefix, #[trigger] records[i]) == Some(
                instance,
            ),
    decreases records.len(),
{
    if records.len() > 0 {
        let front = records.drop_last();
        let listed = instances_of(prefix, records);
        let k = choose|k: int| 0 <= k < listed.len() && listed[k] == instance;
        if instance_of(prefix, records.last()) == Some(instance) {
            assert(records[records.len() - 1] == records.last());
        } else {
            assert(instances_of(prefix, front).contains(instance)) by {
                match instance_of(prefix, records.last()) {
                    Some(other) => {
                        assert(listed == instances_of(prefix, front) + seq![other]);
                        assert(k < instances_of(prefix, front).len());
                        assert(instances_of(prefix, front)[k] == instance);
                    },
                    None => {},
                }
            }
            lemma_listed_instance_has_container(prefix, front, instance);
            let i = choose|i: int|
                0 <= i < front.len() && instance_of(prefix, #[trigger] front[i]) == Some(instance);
            assert(records[i] == front[i]);
        }
    }
}

/// Every listed container that carries the prefix has its instance in the listing.
pub proof fn lemma_container_with_prefix_is_listed(
    prefix: Seq<char>,
    records: Seq<ContainerRecordView>,
    i: int,
)
    requires
        0 <= i < records.len(),
        instance_of(prefix, records[i]) is Some,
    ensures
        instances_of(prefix, records).contains(instance_of(prefix, records[i])->0),
    decreases records.len(),
{
    let front = records.drop_last();
    let wanted = instance_of(prefix, records[i])->0;
    let head = instances_of(prefix, front);
    if i == records.len() - 1 {
        let listed = head + seq![wanted];
        assert(listed[head.len() as int] == wanted);
    } else {
        assert(front[i] == records[i]);
        lemma_container_with_prefix_is_listed(prefix, front, i);
        let k = choose|k: int| 0 <= k < head.len() && head[k] == wanted;
        match instance_of(prefix, records.last()) {
            Some(other) => {
                assert((head + seq![other])[k] == wanted);
            },
            None => {},
        }
    }
}

/// Projects one container record into an instance. A container that does not
/// follow the naming convention is refused.
pub fn project(prefix: &str, record: &ContainerRecord) -> (projected: Result<Instance, Error>)
    ensures
        match projected {
            Ok(instance) => instance_of(prefix@, record@) == Some(instance@) && instance@.wf(),
            Err(e) => e == Error::NotAnInstance && instance_of(prefix@, record@) is None,
        },
{
    if record.names.len() == 0 {
        return Err(Error::NotAnInstance);
    }
    match from_runtime_name(prefix, record.names[0].as_str()) {
        Err(_) => Err(Error::NotAnInstance),
        Ok(name) => {
            let range = port_range(&record.ports);
            let (start_port, end_port) = match range {
                Some((start, end)) => (Some(start), Some(end)),
                None => (None, None),
            };
            Ok(
                Instance {
                    name,
                    start_port,
                    end_port,
                    status: record.state.clone(),
                    handle: record.id.clone(),
                },
            )
        },
    }
}

/// Projects the records of one listing into instances, in the order of the
/// listing. Containers that do not follow the naming convention are left out.
pub fn project_all(prefix: &str, records: &Vec<ContainerRecord>) -> (instances: Vec<Instance>)
    ensures
        instances.deep_view() == instances_of(prefix@, records.deep_view()),
        forall|i: int| 0 <= i < instances.len() ==> (#[trigger] instances[i])@.wf(),
{
    let ghost listing = records.deep_view();
    let ghost pick = |record: ContainerRecordView| instance_of(prefix@, record);
    let mut instances: Vec<Instance> = Vec::new();
    let mut i: usize = 0;
    while i < records.len()
        invariant
            i <= records.len(),
            listing == records.deep_view(),
            pick == (|record: ContainerRecordView| instance_of(prefix@, record)),
            instances.deep_view() == listing.take(i as int).filter_map(pick),
            forall|k: int| 0 <= k < instances.len() ==> (#[trigger] instances[k])@.wf(),
        decreases records.len() - i,
    {
        proof {
            assert(listing.take(i + 1).drop_last() =~= listing.take(i as int));
        }
        if let Ok(instance) = project(prefix, &records[i]) {
            instances.push(instance);
        }
        i = i + 1;
    }
    assert(listing.take(records.len() as int) =~= listing);
    instances
}

} // verus!
