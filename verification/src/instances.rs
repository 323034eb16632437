//! The instance manager: the naming prefix and the service port, fixed when it
//! is made, and every operation on instances seen from the caller's side. The
//! manager holds no connection and keeps no state between calls: it says what
//! to ask of the runtime and what the runtime's answers mean.

use vstd::prelude::*;
use crate::error::{Error, ErrorView};
use crate::forward::{
    plan_forward, plan_of, plan_view, find_instance, ForwardPlan, ForwardRequest, RUNNING,
};
use crate::lifecycle::{
    command_for, commands_of, plan, Command, CommandView, Failure, FailureView, Operation,
};
use crate::naming::{
    from_runtime_name, is_valid_prefix, runtime_name_of, to_runtime_name, user_name_of,
    valid_prefix, INSTANCE_PREFIX,
};
use crate::projection::{instances_of, project_all, ContainerRecord, Instance, PortMapping};
use crate::stream::{subscribe, Source, Subscription, SubscriptionView};
use crate::text::equal;

verus! {

/// The port inside an instance on which its service listens.
pub const SERVICE_PORT: u64 = 8005;

/// The instance manager.
#[derive(Debug, PartialEq, Eq)]
pub struct Instances {
    prefix: String,
    service_port: u64,
}

/// The mathematical content of an [`Instances`].
pub struct InstancesView {
    pub prefix: Seq<char>,
    pub service_port: u64,
}

impl View for Instances {
    type V = InstancesView;

    closed spec fn view(&self) -> InstancesView {
        InstancesView { prefix: self.prefix@, service_port: self.service_port }
    }
}

/// The request that lists the containers that may be instances.
#[derive(Debug, PartialEq, Eq)]
pub struct ListQuery {
    /// What a container's listed name has to hold.
    pub name_filter: String,
    /// Whether stopped containers are listed too.
    pub include_stopped: bool,
}

/// The error in place of a listing that the runtime did not give: an
/// unreachable runtime stays that, and every other failure is a failed
/// request with the runtime's own words.
pub open spec fn listing_error_of(failure: FailureView) -> ErrorView {
    match failure {
        FailureView::Unavailable(m) => ErrorView::RuntimeUnavailable(m),
        FailureView::NotFound(m) => ErrorView::RuntimeRequestFailed(m),
        FailureView::Refused(m) => ErrorView::RuntimeRequestFailed(m),
    }
}

impl Default for Instances {
    /// The manager of the instances that carry the usual prefix.
    fn default() -> (manager: Instances)
        ensures
            manager@ == (InstancesView { prefix: INSTANCE_PREFIX@, service_port: SERVICE_PORT }),
            manager.wf(),
    {
        proof {
            reveal_strlit("pojde-");
        }
        Instances { prefix: String::from_str(INSTANCE_PREFIX), service_port: SERVICE_PORT }
    }
}

impl Instances {
    /// The prefix is one that can mark instances.
    pub open spec fn wf(&self) -> bool {
        valid_prefix(self@.prefix)
    }

    /// A manager of the instances that carry `prefix` and serve on
    /// `service_port`. A prefix that is empty or holds a `/` is refused.
    pub fn new(prefix: &str, service_port: u64) -> (manager: Option<Instances>)
        ensures
            manager is Some <==> valid_prefix(prefix@),
            manager matches Some(m) ==> m.wf() && m@ == (InstancesView {
                prefix: prefix@,
                service_port,
            }),
    {
        if is_valid_prefix(prefix) {
            Some(Instances { prefix: String::from_str(prefix), service_port })
        } else {
            None
        }
    }

    /// The prefix that marks a container as an instance.
    pub fn prefix(&self) -> (prefix: &str)
        ensures
            prefix@ == self@.prefix,
    {
        self.prefix.as_str()
    }

    /// The port inside an instance on which its service listens.
    pub fn service_port(&self) -> (port: u64)
        ensures
            port == self@.service_port,
    {
        self.service_port
    }

    /// The runtime's name for the instance that its user calls `name`.
    pub fn to_runtime_name(&self, name: &str) -> (runtime_name: String)
        ensures
            runtime_name@ == runtime_name_of(self@.prefix, name@),
    {
        to_runtime_name(self.prefix.as_str(), name)
    }

    /// The user's name for the container that the runtime lists as
    /// `runtime_name`. A container without the prefix is no instance.
    pub fn from_runtime_name(&self, runtime_name: &str) -> (user_name: Result<String, Error>)
        ensures
            match user_name {
                Ok(name) => user_name_of(self@.prefix, runtime_name@) == Some(name@),
                Err(e) => e == Error::NotAnInstance && user_name_of(self@.prefix, runtime_name@)
                    is None,
            },
    {
        from_runtime_name(self.prefix.as_str(), runtime_name)
    }

    /// The request that lists every container that may be an instance, the
    /// stopped ones too, in one call: the listed name holds a `/` and the
    /// prefix.
    pub fn list_query(&self) -> (query: ListQuery)
        ensures
            query.name_filter@ == seq!['/'] + self@.prefix,
            query.include_stopped,
    {
        proof {
            reveal_strlit("/");
        }
        let mut name_filter = String::from_str("/");
        name_filter.append(self.prefix.as_str());
        ListQuery { name_filter, include_stopped: true }
    }

    /// The instances of one listing, in the runtime's order. Containers that
    /// the runtime listed and that are no instances are left out. Where the
    /// runtime gave no listing, its failure is handed on and no instance is
    /// returned.
    pub fn get_instances(&self, listing: Result<Vec<ContainerRecord>, Failure>) -> (instances:
        Result<Vec<Instance>, Error>)
        ensures
            match (listing, instances) {
                (Ok(records), Ok(found)) => {
                    &&& found.deep_view() == instances_of(self@.prefix, records.deep_view())
                    &&& forall|i: int| 0 <= i < found.len() ==> (#[trigger] found[i])@.wf()
                },
                (Err(failure), Err(e)) => e@ == listing_error_of(failure@),
                _ => false,
            },
    {
        match listing {
            Ok(records) => Ok(project_all(self.prefix.as_str(), &records)),
            Err(Failure::Unavailable(m)) => Err(Error::RuntimeUnavailable(m)),
            Err(Failure::NotFound(m)) => Err(Error::RuntimeRequestFailed(m)),
            Err(Failure::Refused(m)) => Err(Error::RuntimeRequestFailed(m)),
        }
    }

    /// The command that starts the instance called `name`.
    pub fn start(&self, name: &str) -> (command: Command)
        ensures
            command@ == (CommandView {
                operation: Operation::Start,
                container: runtime_name_of(self@.prefix, name@),
            }),
    {
        command_for(self.prefix.as_str(), Operation::Start, name)
    }

    /// The command that stops the instance called `name`.
    pub fn stop(&self, name: &str) -> (command: Command)
        ensures
            command@ == (CommandView {
                operation: Operation::Stop,
                container: runtime_name_of(self@.prefix, name@),
            }),
    {
        command_for(self.prefix.as_str(), Operation::Stop, name)
    }

    /// The command that restarts the instance called `name`.
    pub fn restart(&self, name: &str) -> (command: Command)
        ensures
            command@ == (CommandView {
                operation: Operation::Restart,
                container: runtime_name_of(self@.prefix, name@),
            }),
    {
        command_for(self.prefix.as_str(), Operation::Restart, name)
    }

    /// The commands that apply `operation` to each of `names`, in the order
    /// of the names.
    pub fn batch(&self, operation: Operation, names: &Vec<String>) -> (commands: Vec<Command>)
        ensures
            commands.deep_view() == commands_of(self@.prefix, operation, names.deep_view()),
    {
        plan(self.prefix.as_str(), operation, names)
    }

    /// The request that attaches to the logs of the instance called `name`.
    pub fn get_logs(&self, name: &str) -> (subscription: Subscription)
        ensures
            subscription@ == (SubscriptionView {
                container: runtime_name_of(self@.prefix, name@),
                source: Source::Logs,
                stdout: true,
                stderr: true,
            }),
    {
        subscribe(self.prefix.as_str(), Source::Logs, name)
    }

    /// The request that attaches to a console in the instance called `name`.
    pub fn enter(&self, name: &str) -> (subscription: Subscription)
        ensures
            subscription@ == (SubscriptionView {
                container: runtime_name_of(self@.prefix, name@),
                source: Source::Console,
                stdout: true,
                stderr: true,
            }),
    {
        subscribe(self.prefix.as_str(), Source::Console, name)
    }

    /// Finds the running instance called `name` in a listing. An instance
    /// that is not listed was not found; one that is listed in another state
    /// than running cannot be forwarded to.
    pub fn resolve<'a>(&self, instances: &'a Vec<Instance>, name: &str) -> (found: Result<
        &'a Instance,
        Error,
    >)
        ensures
            match found {
                Ok(instance) => {
                    &&& instance@.status == RUNNING@
                    &&& exists|i: int|
                        {
                            &&& 0 <= i < instances.len()
                            &&& instances[i] == instance
                            &&& instance@.name == name@
                            &&& forall|k: int| 0 <= k < i ==> instances[k]@.name != name@
                        }
                },
                Err(e) => {
                    ||| {
                        &&& e@ == ErrorView::InstanceNotFound(name@)
                        &&& forall|i: int|
                            0 <= i < instances.len() ==> instances[i]@.name != name@
                    }
                    ||| {
                        &&& e@ == ErrorView::InstanceNotRunning
                        &&& exists|i: int|
                            {
                                &&& 0 <= i < instances.len()
                                &&& instances[i]@.name == name@
                                &&& instances[i]@.status != RUNNING@
                                &&& forall|k: int| 0 <= k < i ==> instances[k]@.name != name@
                            }
                    }
                },
            },
    {
        match find_instance(instances, name) {
            Err(e) => Err(e),
            Ok(instance) => {
                if equal(instance.status.as_str(), RUNNING) {
                    Ok(instance)
                } else {
                    Err(Error::InstanceNotRunning)
                }
            },
        }
    }

    /// Lays out the forwards into `instance`. `ports` is the port-mapping
    /// table that inspecting the instance gave. The instance has to run, and
    /// the table has to bind the manager's service port to a host port.
    pub fn forward(
        &self,
        instance: &Instance,
        ports: &Vec<PortMapping>,
        requests: &Vec<ForwardRequest>,
    ) -> (plan: Result<ForwardPlan, Error>)
        ensures
            plan_view(plan) == plan_of(
                instance@.status,
                ports.deep_view(),
                self@.service_port,
                requests.deep_view(),
            ),
    {
        plan_forward(instance.status.as_str(), ports, self.service_port, requests)
    }
}

/// Under every manager, naming an instance for the runtime and reading the
/// name back gives the name that the user chose.
pub proof fn lemma_manager_round_trip(manager: Instances, name: Seq<char>)
    requires
        manager.wf(),
    ensures
        user_name_of(manager@.prefix, runtime_name_of(manager@.prefix, name)) == Some(name),
{
}

} // verus!
